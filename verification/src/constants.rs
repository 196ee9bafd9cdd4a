//! Wire-protocol constants, a frozen table taken from the kernel's
//! `linux/netlink.h`, `linux/rtnetlink.h`, `linux/if.h`, `linux/if_arp.h`,
//! `linux/neighbour.h` and `linux/audit.h` headers.

use vstd::prelude::*;

verus! {

/// Length of a netlink packet header.
pub const NETLINK_HEADER_LEN: usize = 16;

/// Length of a netlink attribute header (16-bit length plus 16-bit type).
pub const NLA_HEADER_LEN: usize = 4;

/// Length of an `NLMSGERR` body: a 32-bit code plus the echoed header.
pub const ERROR_MESSAGE_LEN: usize = 20;

/// Length of the fixed rtnetlink link header (`ifinfomsg`).
pub const LINK_HEADER_LEN: usize = 16;

/// Length of the fixed rtnetlink address header (`ifaddrmsg`).
pub const ADDRESS_HEADER_LEN: usize = 8;

/// Length of the fixed rtnetlink neighbour header (`ndmsg`).
pub const NEIGHBOUR_HEADER_LEN: usize = 12;

/// The message is ignored.
pub const NLMSG_NOOP: u16 = 1;
/// The message signals an error and the payload holds a `nlmsgerr` structure.
pub const NLMSG_ERROR: u16 = 2;
/// The message terminates a multipart message.
pub const NLMSG_DONE: u16 = 3;
/// Data were lost.
pub const NLMSG_OVERRUN: u16 = 4;

/// Lowest message type handled by the audit-netlink family; every type at or
/// above it belongs to the audit subsystem, every family type below it to
/// route-netlink.
pub const AUDIT_GET: u16 = 1000;
/// Set audit status.
pub const AUDIT_SET: u16 = 1001;
/// Add an audit rule.
pub const AUDIT_ADD_RULE: u16 = 1011;
/// Delete an audit rule.
pub const AUDIT_DEL_RULE: u16 = 1012;
/// List audit rules.
pub const AUDIT_LIST_RULES: u16 = 1013;

/// Length of the fixed part of an `audit_status` struct: its ten 32-bit
/// counters.
pub const AUDIT_STATUS_LEN: usize = 40;

// Bits of the `mask` field of an `audit_status` struct: which of the
// other fields a set request means to apply.

pub const AUDIT_STATUS_ENABLED: u32 = 0x1;
pub const AUDIT_STATUS_FAILURE: u32 = 0x2;
pub const AUDIT_STATUS_PID: u32 = 0x4;
pub const AUDIT_STATUS_RATE_LIMIT: u32 = 0x8;
pub const AUDIT_STATUS_BACKLOG_LIMIT: u32 = 0x10;

// Standard netlink flag bits.

/// Must be set on all request messages.
pub const NLM_F_REQUEST: u16 = 1;
/// The message is part of a multipart message terminated by `NLMSG_DONE`.
pub const NLM_F_MULTIPART: u16 = 2;
/// Request an acknowledgment on success.
pub const NLM_F_ACK: u16 = 4;
/// Echo this request.
pub const NLM_F_ECHO: u16 = 8;

// Additional flag bits for GET requests.

/// Return the complete table instead of a single entry.
pub const NLM_F_ROOT: u16 = 0x100;
/// Return all entries matching criteria passed in message content.
pub const NLM_F_MATCH: u16 = 0x200;
/// Return an atomic snapshot of the table.
pub const NLM_F_ATOMIC: u16 = 0x400;
/// Dump the table (`NLM_F_ROOT | NLM_F_MATCH`).
pub const NLM_F_DUMP: u16 = 0x300;

// Additional flag bits for NEW requests.

/// Replace an existing matching object.
pub const NLM_F_REPLACE: u16 = 0x100;
/// Do not replace the object if it already exists.
pub const NLM_F_EXCL: u16 = 0x200;
/// Create the object if it does not already exist.
pub const NLM_F_CREATE: u16 = 0x400;
/// Add to the end of the object list.
pub const NLM_F_APPEND: u16 = 0x800;

// Netlink attribute type field: flag bits and tag mask.

/// The bits of an attribute type that carry the tag proper.
pub const NLA_TYPE_MASK: u16 = 0x3fff;
/// The attribute carries a nested attribute list.
pub const NLA_F_NESTED: u16 = 0x8000;
/// The attribute payload is stored in network byte order.
pub const NLA_F_NET_BYTEORDER: u16 = 0x4000;

// rtnetlink message types.

pub const RTM_NEWLINK: u16 = 16;
pub const RTM_DELLINK: u16 = 17;
pub const RTM_GETLINK: u16 = 18;
pub const RTM_SETLINK: u16 = 19;
pub const RTM_NEWADDR: u16 = 20;
pub const RTM_DELADDR: u16 = 21;
pub const RTM_GETADDR: u16 = 22;
pub const RTM_NEWNEIGH: u16 = 28;
pub const RTM_DELNEIGH: u16 = 29;
pub const RTM_GETNEIGH: u16 = 30;

// Link layer types (`ARPHRD_*`).

pub const ARPHRD_NETROM: u16 = 0;
pub const ARPHRD_ETHER: u16 = 1;
pub const ARPHRD_LOOPBACK: u16 = 772;

// Link device flags (`IFF_*`).

pub const IFF_UP: u32 = 0x1;
pub const IFF_BROADCAST: u32 = 0x2;
pub const IFF_DEBUG: u32 = 0x4;
pub const IFF_LOOPBACK: u32 = 0x8;
pub const IFF_POINTOPOINT: u32 = 0x10;
pub const IFF_NOTRAILERS: u32 = 0x20;
pub const IFF_RUNNING: u32 = 0x40;
pub const IFF_NOARP: u32 = 0x80;
pub const IFF_PROMISC: u32 = 0x100;
pub const IFF_ALLMULTI: u32 = 0x200;
pub const IFF_MASTER: u32 = 0x400;
pub const IFF_SLAVE: u32 = 0x800;
pub const IFF_MULTICAST: u32 = 0x1000;
pub const IFF_PORTSEL: u32 = 0x2000;
pub const IFF_AUTOMEDIA: u32 = 0x4000;
pub const IFF_DYNAMIC: u32 = 0x8000;
pub const IFF_LOWER_UP: u32 = 0x10000;
pub const IFF_DORMANT: u32 = 0x20000;
pub const IFF_ECHO: u32 = 0x40000;

// Link attribute tags (`IFLA_*`).

pub const IFLA_UNSPEC: u16 = 0;
pub const IFLA_ADDRESS: u16 = 1;
pub const IFLA_BROADCAST: u16 = 2;
pub const IFLA_IFNAME: u16 = 3;
pub const IFLA_MTU: u16 = 4;
pub const IFLA_LINK: u16 = 5;
pub const IFLA_TXQLEN: u16 = 13;
pub const IFLA_OPERSTATE: u16 = 16;
pub const IFLA_LINKMODE: u16 = 17;
pub const IFLA_GROUP: u16 = 27;
pub const IFLA_PROMISCUITY: u16 = 30;
pub const IFLA_NUM_TX_QUEUES: u16 = 31;
pub const IFLA_GSO_MAX_SEGS: u16 = 40;
pub const IFLA_GSO_MAX_SIZE: u16 = 41;

// Neighbour attribute tags (`NDA_*`).

pub const NDA_UNSPEC: u16 = 0;
pub const NDA_DST: u16 = 1;
pub const NDA_LLADDR: u16 = 2;
pub const NDA_CACHEINFO: u16 = 3;
pub const NDA_PROBES: u16 = 4;
pub const NDA_VLAN: u16 = 5;
pub const NDA_PORT: u16 = 6;
pub const NDA_VNI: u16 = 7;
pub const NDA_IFINDEX: u16 = 8;
pub const NDA_MASTER: u16 = 9;
pub const NDA_LINK_NETNSID: u16 = 10;
pub const NDA_SRC_VNI: u16 = 11;

} // verus!
