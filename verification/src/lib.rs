//! A codec for the Linux netlink wire protocol: a fallible parser and a
//! length-correct emitter for netlink datagrams, their headers, and their
//! attribute trailers, with typed support for the route-netlink and
//! audit-netlink families.


pub mod address;
pub mod audit;
pub mod buffer;
pub mod bytes;
pub mod constants;
pub mod errmsg;
pub mod errors;
pub mod flags;
pub mod header;
pub mod link;
pub mod message;
pub mod neighbour;
pub mod nla;
pub mod requests;
pub mod rtnl;

pub use address::AddressBuffer;
pub use address::AddressHeader;
pub use address::AddressMessage;
pub use buffer::NetlinkBuffer;
pub use audit::AuditMessage;
pub use audit::AuditStatus;
pub use errmsg::AckMessage;
pub use errmsg::ErrorMessage;
pub use errors::Error;
pub use flags::NetlinkFlags;
pub use header::NetlinkHeader;
pub use link::LinkBuffer;
pub use link::LinkFlags;
pub use link::LinkHeader;
pub use link::LinkLayerType;
pub use link::LinkMessage;
pub use link::LinkNla;
pub use link::LinkState;
pub use message::NetlinkMessage;
pub use message::NetlinkPayload;
pub use neighbour::NeighbourBuffer;
pub use neighbour::NeighbourCacheInfo;
pub use neighbour::NeighbourHeader;
pub use neighbour::NeighbourMessage;
pub use neighbour::NeighbourNla;
pub use nla::DefaultNla;
pub use nla::NlaBuffer;
pub use requests::ack_step;
pub use requests::del_link_request;
pub use requests::get_link_request;
pub use requests::link_dump_step;
pub use requests::AckStep;
pub use requests::LinkDumpStep;
pub use rtnl::RtnlMessage;
