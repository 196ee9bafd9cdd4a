//! The route-netlink family payload: dispatch over the `RTM_*` message
//! types to the link, address and neighbour messages, with unknown types
//! carried verbatim.

use vstd::prelude::*;
use vstd::slice::slice_to_vec;

use crate::address::{
    address_message_parsed, address_payload_canonical, address_payload_ok, AddressBuffer,
    AddressMessage,
};
use crate::bytes::push_slice;
use crate::constants::{
    ADDRESS_HEADER_LEN, LINK_HEADER_LEN, NEIGHBOUR_HEADER_LEN, NLMSG_DONE, NLMSG_ERROR, NLMSG_NOOP,
    NLMSG_OVERRUN, RTM_DELADDR, RTM_DELLINK, RTM_GETADDR, RTM_GETLINK, RTM_GETNEIGH, RTM_NEWADDR,
    RTM_NEWLINK, RTM_NEWNEIGH, RTM_SETLINK,
};
use crate::errmsg::{AckMessage, ErrorMessage};
use crate::errors::Error;
use crate::link::{
    link_message_parsed, link_payload_canonical, link_payload_ok, LinkBuffer, LinkMessage,
};
use crate::neighbour::{
    neighbour_message_parsed, neighbour_payload_canonical, neighbour_payload_ok, NeighbourBuffer,
    NeighbourMessage,
};
use crate::nla::nla_run_error_truncated;

verus! {

/// A route-netlink payload, keyed on the message type of its datagram.
/// Types the codec does not recognise are preserved verbatim in
/// [`RtnlMessage::Other`], together with their type code.
#[derive(Debug, PartialEq, Eq, Clone)]
pub enum RtnlMessage {
    Done,
    Error(ErrorMessage),
    Ack(AckMessage),
    Noop,
    Overrun(Vec<u8>),
    NewLink(LinkMessage),
    DelLink(LinkMessage),
    GetLink(LinkMessage),
    SetLink(LinkMessage),
    NewAddress(AddressMessage),
    DelAddress(AddressMessage),
    GetAddress(AddressMessage),
    GetNeighbour(NeighbourMessage),
    NewNeighbour(NeighbourMessage),
    Other { message_type: u16, data: Vec<u8> },
}

/// Whether a message type carries a link message.
pub open spec fn rtnl_is_link_type(ty: u16) -> bool {
    ty == RTM_NEWLINK || ty == RTM_DELLINK || ty == RTM_GETLINK || ty == RTM_SETLINK
}

/// Whether a message type carries an address message.
pub open spec fn rtnl_is_address_type(ty: u16) -> bool {
    ty == RTM_NEWADDR || ty == RTM_DELADDR || ty == RTM_GETADDR
}

/// Whether a message type carries a neighbour message the codec types.
pub open spec fn rtnl_is_neighbour_type(ty: u16) -> bool {
    ty == RTM_NEWNEIGH || ty == RTM_GETNEIGH
}

/// A route-netlink payload of the given type decodes.
pub open spec fn rtnl_parse_ok(ty: u16, b: Seq<u8>) -> bool {
    if rtnl_is_link_type(ty) {
        link_payload_ok(b)
    } else if rtnl_is_address_type(ty) {
        address_payload_ok(b)
    } else if rtnl_is_neighbour_type(ty) {
        neighbour_payload_ok(b)
    } else {
        true
    }
}

/// A failing route-netlink payload fails by truncation, as opposed to
/// malformation.
pub open spec fn rtnl_truncated(ty: u16, b: Seq<u8>) -> bool {
    if rtnl_is_link_type(ty) {
        b.len() < LINK_HEADER_LEN || nla_run_error_truncated(b.skip(LINK_HEADER_LEN as int))
    } else if rtnl_is_address_type(ty) {
        b.len() < ADDRESS_HEADER_LEN || nla_run_error_truncated(b.skip(ADDRESS_HEADER_LEN as int))
    } else if rtnl_is_neighbour_type(ty) {
        b.len() < NEIGHBOUR_HEADER_LEN || nla_run_error_truncated(
            b.skip(NEIGHBOUR_HEADER_LEN as int),
        )
    } else {
        false
    }
}

/// A route-netlink payload of the given type is in emitted form.
pub open spec fn rtnl_canonical(ty: u16, b: Seq<u8>) -> bool {
    if rtnl_is_link_type(ty) {
        link_payload_canonical(b)
    } else if rtnl_is_address_type(ty) {
        address_payload_canonical(b)
    } else if rtnl_is_neighbour_type(ty) {
        neighbour_payload_canonical(b)
    } else {
        true
    }
}

/// How a decoded route-netlink payload relates to the message type and
/// payload bytes it was decoded from.
pub open spec fn rtnl_parsed(m: RtnlMessage, ty: u16, b: Seq<u8>) -> bool {
    if ty == RTM_NEWLINK {
        m matches RtnlMessage::NewLink(x) && link_message_parsed(x, b)
    } else if ty == RTM_DELLINK {
        m matches RtnlMessage::DelLink(x) && link_message_parsed(x, b)
    } else if ty == RTM_GETLINK {
        m matches RtnlMessage::GetLink(x) && link_message_parsed(x, b)
    } else if ty == RTM_SETLINK {
        m matches RtnlMessage::SetLink(x) && link_message_parsed(x, b)
    } else if ty == RTM_NEWADDR {
        m matches RtnlMessage::NewAddress(x) && address_message_parsed(x, b)
    } else if ty == RTM_DELADDR {
        m matches RtnlMessage::DelAddress(x) && address_message_parsed(x, b)
    } else if ty == RTM_GETADDR {
        m matches RtnlMessage::GetAddress(x) && address_message_parsed(x, b)
    } else if ty == RTM_NEWNEIGH {
        m matches RtnlMessage::NewNeighbour(x) && neighbour_message_parsed(x, b)
    } else if ty == RTM_GETNEIGH {
        m matches RtnlMessage::GetNeighbour(x) && neighbour_message_parsed(x, b)
    } else {
        m matches RtnlMessage::Other { message_type, data } && message_type == ty && data@ == b
    }
}

/// Round trip of a route-netlink payload: one decoded from a payload in
/// emitted form re-emits it byte for byte, under its own message type.
pub proof fn lemma_rtnl_round_trip(m: RtnlMessage, ty: u16, b: Seq<u8>)
    requires
        rtnl_parse_ok(ty, b),
        rtnl_canonical(ty, b),
        rtnl_parsed(m, ty, b),
    ensures
        m.wire() == b,
        m.spec_message_type() == ty,
{
    if rtnl_is_link_type(ty) {
        match m {
            RtnlMessage::NewLink(x) => crate::link::lemma_link_message_round_trip(x, b),
            RtnlMessage::DelLink(x) => crate::link::lemma_link_message_round_trip(x, b),
            RtnlMessage::GetLink(x) => crate::link::lemma_link_message_round_trip(x, b),
            RtnlMessage::SetLink(x) => crate::link::lemma_link_message_round_trip(x, b),
            _ => {},
        }
    } else if rtnl_is_address_type(ty) {
        match m {
            RtnlMessage::NewAddress(x) => crate::address::lemma_address_message_round_trip(x, b),
            RtnlMessage::DelAddress(x) => crate::address::lemma_address_message_round_trip(x, b),
            RtnlMessage::GetAddress(x) => crate::address::lemma_address_message_round_trip(x, b),
            _ => {},
        }
    } else if rtnl_is_neighbour_type(ty) {
        match m {
            RtnlMessage::NewNeighbour(x) => crate::neighbour::lemma_neighbour_message_round_trip(
                x,
                b,
            ),
            RtnlMessage::GetNeighbour(x) => crate::neighbour::lemma_neighbour_message_round_trip(
                x,
                b,
            ),
            _ => {},
        }
    }
}

impl RtnlMessage {
    /// The message type code this payload finalizes under.
    pub open spec fn spec_message_type(self) -> u16 {
        match self {
            RtnlMessage::Done => NLMSG_DONE,
            RtnlMessage::Error(_) => NLMSG_ERROR,
            RtnlMessage::Ack(_) => NLMSG_ERROR,
            RtnlMessage::Noop => NLMSG_NOOP,
            RtnlMessage::Overrun(_) => NLMSG_OVERRUN,
            RtnlMessage::NewLink(_) => RTM_NEWLINK,
            RtnlMessage::DelLink(_) => RTM_DELLINK,
            RtnlMessage::GetLink(_) => RTM_GETLINK,
            RtnlMessage::SetLink(_) => RTM_SETLINK,
            RtnlMessage::NewAddress(_) => RTM_NEWADDR,
            RtnlMessage::DelAddress(_) => RTM_DELADDR,
            RtnlMessage::GetAddress(_) => RTM_GETADDR,
            RtnlMessage::GetNeighbour(_) => RTM_GETNEIGH,
            RtnlMessage::NewNeighbour(_) => RTM_NEWNEIGH,
            RtnlMessage::Other { message_type, .. } => message_type,
        }
    }

    /// The message type code this payload finalizes under.
    pub fn message_type(&self) -> (r: u16)
        ensures
            r == self.spec_message_type(),
    {
        match self {
            RtnlMessage::Done => NLMSG_DONE,
            RtnlMessage::Error(_) => NLMSG_ERROR,
            RtnlMessage::Ack(_) => NLMSG_ERROR,
            RtnlMessage::Noop => NLMSG_NOOP,
            RtnlMessage::Overrun(_) => NLMSG_OVERRUN,
            RtnlMessage::NewLink(_) => RTM_NEWLINK,
            RtnlMessage::DelLink(_) => RTM_DELLINK,
            RtnlMessage::GetLink(_) => RTM_GETLINK,
            RtnlMessage::SetLink(_) => RTM_SETLINK,
            RtnlMessage::NewAddress(_) => RTM_NEWADDR,
            RtnlMessage::DelAddress(_) => RTM_DELADDR,
            RtnlMessage::GetAddress(_) => RTM_GETADDR,
            RtnlMessage::GetNeighbour(_) => RTM_GETNEIGH,
            RtnlMessage::NewNeighbour(_) => RTM_NEWNEIGH,
            RtnlMessage::Other { message_type, .. } => *message_type,
        }
    }

    /// The bytes this payload occupies on the wire.
    pub open spec fn wire(self) -> Seq<u8> {
        match self {
            RtnlMessage::Done => Seq::<u8>::empty(),
            RtnlMessage::Error(em) => em.wire(),
            RtnlMessage::Ack(em) => em.wire(),
            RtnlMessage::Noop => Seq::<u8>::empty(),
            RtnlMessage::Overrun(v) => v@,
            RtnlMessage::NewLink(x) => x.wire(),
            RtnlMessage::DelLink(x) => x.wire(),
            RtnlMessage::GetLink(x) => x.wire(),
            RtnlMessage::SetLink(x) => x.wire(),
            RtnlMessage::NewAddress(x) => x.wire(),
            RtnlMessage::DelAddress(x) => x.wire(),
            RtnlMessage::GetAddress(x) => x.wire(),
            RtnlMessage::GetNeighbour(x) => x.wire(),
            RtnlMessage::NewNeighbour(x) => x.wire(),
            RtnlMessage::Other { data, .. } => data@,
        }
    }

    /// Every attribute of a family message fits its length field.
    pub open spec fn wf(self) -> bool {
        match self {
            RtnlMessage::NewLink(x) => x.wf(),
            RtnlMessage::DelLink(x) => x.wf(),
            RtnlMessage::GetLink(x) => x.wf(),
            RtnlMessage::SetLink(x) => x.wf(),
            RtnlMessage::NewAddress(x) => x.wf(),
            RtnlMessage::DelAddress(x) => x.wf(),
            RtnlMessage::GetAddress(x) => x.wf(),
            RtnlMessage::GetNeighbour(x) => x.wf(),
            RtnlMessage::NewNeighbour(x) => x.wf(),
            _ => true,
        }
    }

    /// The number of bytes this payload occupies on the wire.
    pub fn buffer_len(&self) -> (r: usize)
        requires
            self.wf(),
            self.wire().len() <= u32::MAX,
        ensures
            r == self.wire().len(),
    {
        match self {
            RtnlMessage::Done => 0,
            RtnlMessage::Error(em) => em.buffer_len(),
            RtnlMessage::Ack(em) => em.buffer_len(),
            RtnlMessage::Noop => 0,
            RtnlMessage::Overrun(v) => v.len(),
            RtnlMessage::NewLink(x) => x.buffer_len(),
            RtnlMessage::DelLink(x) => x.buffer_len(),
            RtnlMessage::GetLink(x) => x.buffer_len(),
            RtnlMessage::SetLink(x) => x.buffer_len(),
            RtnlMessage::NewAddress(x) => x.buffer_len(),
            RtnlMessage::DelAddress(x) => x.buffer_len(),
            RtnlMessage::GetAddress(x) => x.buffer_len(),
            RtnlMessage::GetNeighbour(x) => x.buffer_len(),
            RtnlMessage::NewNeighbour(x) => x.buffer_len(),
            RtnlMessage::Other { data, .. } => data.len(),
        }
    }

    /// Appends the wire form of this payload.
    pub fn emit(&self, out: &mut Vec<u8>)
        requires
            self.wf(),
        ensures
            final(out)@ == old(out)@ + self.wire(),
    {
        match self {
            RtnlMessage::Done => {
                proof {
                    assert(out@ =~= old(out)@ + self.wire());
                }
            },
            RtnlMessage::Error(em) => em.emit(out),
            RtnlMessage::Ack(em) => em.emit(out),
            RtnlMessage::Noop => {
                proof {
                    assert(out@ =~= old(out)@ + self.wire());
                }
            },
            RtnlMessage::Overrun(v) => push_slice(out, v.as_slice()),
            RtnlMessage::NewLink(x) => x.emit(out),
            RtnlMessage::DelLink(x) => x.emit(out),
            RtnlMessage::GetLink(x) => x.emit(out),
            RtnlMessage::SetLink(x) => x.emit(out),
            RtnlMessage::NewAddress(x) => x.emit(out),
            RtnlMessage::DelAddress(x) => x.emit(out),
            RtnlMessage::GetAddress(x) => x.emit(out),
            RtnlMessage::GetNeighbour(x) => x.emit(out),
            RtnlMessage::NewNeighbour(x) => x.emit(out),
            RtnlMessage::Other { data, .. } => push_slice(out, data.as_slice()),
        }
    }

    /// Decodes a route-netlink payload, dispatching on the message type of
    /// the datagram it arrived under.
    pub fn parse(message_type: u16, payload: &[u8]) -> (r: Result<RtnlMessage, Error>)
        ensures
            r is Ok <==> rtnl_parse_ok(message_type, payload@),
            r matches Ok(m) ==> {
                &&& rtnl_parsed(m, message_type, payload@)
                &&& m.wf()
                &&& m.spec_message_type() == message_type
                &&& (rtnl_canonical(message_type, payload@) ==> m.wire() == payload@)
            },
            r matches Err(e) ==> (e is Truncated <==> rtnl_truncated(message_type, payload@)) && (
            e is Truncated || e is Malformed),
    {
        if message_type == RTM_NEWLINK || message_type == RTM_DELLINK || message_type == RTM_GETLINK
            || message_type == RTM_SETLINK {
            let x = match LinkBuffer::new(slice_to_vec(payload)).parse() {
                Ok(x) => x,
                Err(e) => {
                    return Err(e);
                },
            };
            if message_type == RTM_NEWLINK {
                Ok(RtnlMessage::NewLink(x))
            } else if message_type == RTM_DELLINK {
                Ok(RtnlMessage::DelLink(x))
            } else if message_type == RTM_GETLINK {
                Ok(RtnlMessage::GetLink(x))
            } else {
                Ok(RtnlMessage::SetLink(x))
            }
        } else if message_type == RTM_NEWADDR || message_type == RTM_DELADDR || message_type
            == RTM_GETADDR {
            let x = match AddressBuffer::new(slice_to_vec(payload)).parse() {
                Ok(x) => x,
                Err(e) => {
                    return Err(e);
                },
            };
            if message_type == RTM_NEWADDR {
                Ok(RtnlMessage::NewAddress(x))
            } else if message_type == RTM_DELADDR {
                Ok(RtnlMessage::DelAddress(x))
            } else {
                Ok(RtnlMessage::GetAddress(x))
            }
        } else if message_type == RTM_NEWNEIGH || message_type == RTM_GETNEIGH {
            let x = match NeighbourBuffer::new(slice_to_vec(payload)).parse() {
                Ok(x) => x,
                Err(e) => {
                    return Err(e);
                },
            };
            if message_type == RTM_NEWNEIGH {
                Ok(RtnlMessage::NewNeighbour(x))
            } else {
                Ok(RtnlMessage::GetNeighbour(x))
            }
        } else {
            Ok(RtnlMessage::Other { message_type, data: slice_to_vec(payload) })
        }
    }

    /// Whether this payload is `Done`.
    pub fn is_done(&self) -> (r: bool)
        ensures
            r == (self matches RtnlMessage::Done),
    {
        matches!(self, RtnlMessage::Done)
    }

    /// Whether this payload is `Noop`.
    pub fn is_noop(&self) -> (r: bool)
        ensures
            r == (self matches RtnlMessage::Noop),
    {
        matches!(self, RtnlMessage::Noop)
    }

    /// Whether this payload is `Overrun`.
    pub fn is_overrun(&self) -> (r: bool)
        ensures
            r == (self matches RtnlMessage::Overrun(_)),
    {
        matches!(self, RtnlMessage::Overrun(_))
    }

    /// Whether this payload is an error with a negative code.
    pub fn is_error(&self) -> (r: bool)
        ensures
            r == (self matches RtnlMessage::Error(_)),
    {
        matches!(self, RtnlMessage::Error(_))
    }

    /// Whether this payload is an acknowledgment.
    pub fn is_ack(&self) -> (r: bool)
        ensures
            r == (self matches RtnlMessage::Ack(_)),
    {
        matches!(self, RtnlMessage::Ack(_))
    }

    /// Whether this payload is `NewLink`.
    pub fn is_new_link(&self) -> (r: bool)
        ensures
            r == (self matches RtnlMessage::NewLink(_)),
    {
        matches!(self, RtnlMessage::NewLink(_))
    }

    /// Whether this payload is `DelLink`.
    pub fn is_del_link(&self) -> (r: bool)
        ensures
            r == (self matches RtnlMessage::DelLink(_)),
    {
        matches!(self, RtnlMessage::DelLink(_))
    }

    /// Whether this payload is `GetLink`.
    pub fn is_get_link(&self) -> (r: bool)
        ensures
            r == (self matches RtnlMessage::GetLink(_)),
    {
        matches!(self, RtnlMessage::GetLink(_))
    }

    /// Whether this payload is `SetLink`.
    pub fn is_set_link(&self) -> (r: bool)
        ensures
            r == (self matches RtnlMessage::SetLink(_)),
    {
        matches!(self, RtnlMessage::SetLink(_))
    }

    /// Whether this payload is `NewAddress`.
    pub fn is_new_address(&self) -> (r: bool)
        ensures
            r == (self matches RtnlMessage::NewAddress(_)),
    {
        matches!(self, RtnlMessage::NewAddress(_))
    }

    /// Whether this payload is `DelAddress`.
    pub fn is_del_address(&self) -> (r: bool)
        ensures
            r == (self matches RtnlMessage::DelAddress(_)),
    {
        matches!(self, RtnlMessage::DelAddress(_))
    }

    /// Whether this payload is `GetAddress`.
    pub fn is_get_address(&self) -> (r: bool)
        ensures
            r == (self matches RtnlMessage::GetAddress(_)),
    {
        matches!(self, RtnlMessage::GetAddress(_))
    }

    /// Whether this payload is `GetNeighbour`.
    pub fn is_get_neighbour(&self) -> (r: bool)
        ensures
            r == (self matches RtnlMessage::GetNeighbour(_)),
    {
        matches!(self, RtnlMessage::GetNeighbour(_))
    }

    /// Whether this payload is `NewNeighbour`.
    pub fn is_new_neighbour(&self) -> (r: bool)
        ensures
            r == (self matches RtnlMessage::NewNeighbour(_)),
    {
        matches!(self, RtnlMessage::NewNeighbour(_))
    }
}

} // verus!
