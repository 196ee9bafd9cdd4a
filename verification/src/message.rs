//! The generic netlink message: the 16-byte header, a typed payload
//! variant, and the finalize gate between building a message and
//! serialising it.

use vstd::prelude::*;
use vstd::bytes::*;
use vstd::slice::slice_to_vec;

use crate::audit::{audit_parse_ok, audit_parsed, lemma_audit_round_trip, AuditMessage};
use crate::buffer::NetlinkBuffer;
use crate::bytes::{push_slice, splice_bytes};
use crate::constants::{
    AUDIT_GET, ERROR_MESSAGE_LEN, NETLINK_HEADER_LEN, NLMSG_DONE, NLMSG_ERROR, NLMSG_NOOP,
    NLMSG_OVERRUN,
};
use crate::errmsg::{AckMessage, ErrorMessage};
use crate::errors::Error;
use crate::flags::NetlinkFlags;
use crate::header::{lemma_header_wire_len, NetlinkHeader};
use crate::rtnl::{rtnl_canonical, rtnl_parse_ok, rtnl_parsed, rtnl_truncated, RtnlMessage};

verus! {

/// The payload of a netlink message: one of the four standard control
/// messages, an error or acknowledgment body, or a family payload.
#[derive(Debug, PartialEq, Eq, Clone)]
pub enum NetlinkPayload {
    Done,
    Error(ErrorMessage),
    Ack(AckMessage),
    Noop,
    Overrun(Vec<u8>),
    Rtnl(RtnlMessage),
    Audit(AuditMessage),
}

impl NetlinkPayload {
    /// The message type code this payload finalizes under.
    pub open spec fn spec_message_type(self) -> u16 {
        match self {
            NetlinkPayload::Done => NLMSG_DONE,
            NetlinkPayload::Error(_) => NLMSG_ERROR,
            NetlinkPayload::Ack(_) => NLMSG_ERROR,
            NetlinkPayload::Noop => NLMSG_NOOP,
            NetlinkPayload::Overrun(_) => NLMSG_OVERRUN,
            NetlinkPayload::Rtnl(m) => m.spec_message_type(),
            NetlinkPayload::Audit(m) => m.spec_message_type(),
        }
    }

    /// The message type code this payload finalizes under.
    pub fn message_type(&self) -> (r: u16)
        ensures
            r == self.spec_message_type(),
    {
        match self {
            NetlinkPayload::Done => NLMSG_DONE,
            NetlinkPayload::Error(_) => NLMSG_ERROR,
            NetlinkPayload::Ack(_) => NLMSG_ERROR,
            NetlinkPayload::Noop => NLMSG_NOOP,
            NetlinkPayload::Overrun(_) => NLMSG_OVERRUN,
            NetlinkPayload::Rtnl(m) => m.message_type(),
            NetlinkPayload::Audit(m) => m.message_type(),
        }
    }

    /// The bytes this payload occupies on the wire.
    pub open spec fn wire(self) -> Seq<u8> {
        match self {
            NetlinkPayload::Done => Seq::<u8>::empty(),
            NetlinkPayload::Error(em) => em.wire(),
            NetlinkPayload::Ack(em) => em.wire(),
            NetlinkPayload::Noop => Seq::<u8>::empty(),
            NetlinkPayload::Overrun(v) => v@,
            NetlinkPayload::Rtnl(m) => m.wire(),
            NetlinkPayload::Audit(m) => m.wire(),
        }
    }

    /// Every attribute of a family payload fits its length field.
    pub open spec fn wf(self) -> bool {
        match self {
            NetlinkPayload::Rtnl(m) => m.wf(),
            _ => true,
        }
    }

    /// The number of bytes this payload occupies on the wire.
    pub fn buffer_len(&self) -> (r: usize)
        requires
            self.wf(),
            self.wire().len() <= u32::MAX,
        ensures
            r == self.wire().len(),
    {
        match self {
            NetlinkPayload::Done => 0,
            NetlinkPayload::Error(em) => em.buffer_len(),
            NetlinkPayload::Ack(em) => em.buffer_len(),
            NetlinkPayload::Noop => 0,
            NetlinkPayload::Overrun(v) => v.len(),
            NetlinkPayload::Rtnl(m) => m.buffer_len(),
            NetlinkPayload::Audit(m) => m.buffer_len(),
        }
    }

    /// Appends the wire form of this payload.
    pub fn emit(&self, out: &mut Vec<u8>)
        requires
            self.wf(),
        ensures
            final(out)@ == old(out)@ + self.wire(),
    {
        match self {
            NetlinkPayload::Done => {
                proof {
                    assert(out@ =~= old(out)@ + self.wire());
                }
            },
            NetlinkPayload::Error(em) => em.emit(out),
            NetlinkPayload::Ack(em) => em.emit(out),
            NetlinkPayload::Noop => {
                proof {
                    assert(out@ =~= old(out)@ + self.wire());
                }
            },
            NetlinkPayload::Overrun(v) => push_slice(out, v.as_slice()),
            NetlinkPayload::Rtnl(m) => m.emit(out),
            NetlinkPayload::Audit(m) => m.emit(out),
        }
    }

    /// Whether this payload is a route-netlink message.
    pub fn is_rtnl(&self) -> (r: bool)
        ensures
            r == (self matches NetlinkPayload::Rtnl(_)),
    {
        matches!(self, NetlinkPayload::Rtnl(_))
    }

    /// Whether this payload is an audit message.
    pub fn is_audit(&self) -> (r: bool)
        ensures
            r == (self matches NetlinkPayload::Audit(_)),
    {
        matches!(self, NetlinkPayload::Audit(_))
    }

    /// Whether this payload is `Done`.
    pub fn is_done(&self) -> (r: bool)
        ensures
            r == (self matches NetlinkPayload::Done),
    {
        matches!(self, NetlinkPayload::Done)
    }

    /// Whether this payload is `Noop`.
    pub fn is_noop(&self) -> (r: bool)
        ensures
            r == (self matches NetlinkPayload::Noop),
    {
        matches!(self, NetlinkPayload::Noop)
    }

    /// Whether this payload is `Overrun`.
    pub fn is_overrun(&self) -> (r: bool)
        ensures
            r == (self matches NetlinkPayload::Overrun(_)),
    {
        matches!(self, NetlinkPayload::Overrun(_))
    }

    /// Whether this payload is an error with a negative code.
    pub fn is_error(&self) -> (r: bool)
        ensures
            r == (self matches NetlinkPayload::Error(_)),
    {
        matches!(self, NetlinkPayload::Error(_))
    }

    /// Whether this payload is an acknowledgment.
    pub fn is_ack(&self) -> (r: bool)
        ensures
            r == (self matches NetlinkPayload::Ack(_)),
    {
        matches!(self, NetlinkPayload::Ack(_))
    }
}

/// The `length` field of a datagram.
pub open spec fn datagram_length(b: Seq<u8>) -> u32 {
    spec_u32_from_le_bytes(b.subrange(0, 4))
}

/// The `message_type` field of a datagram.
pub open spec fn datagram_type(b: Seq<u8>) -> u16 {
    spec_u16_from_le_bytes(b.subrange(4, 6))
}

/// The payload region of a datagram: the bytes between the header and the
/// declared total length.
pub open spec fn datagram_payload(b: Seq<u8>) -> Seq<u8> {
    b.subrange(NETLINK_HEADER_LEN as int, datagram_length(b) as int)
}

/// The framing of a datagram holds: the header is present and the
/// declared total length covers the header and lies within the bytes.
pub open spec fn datagram_wf(b: Seq<u8>) -> bool {
    &&& b.len() >= NETLINK_HEADER_LEN
    &&& NETLINK_HEADER_LEN <= datagram_length(b) as int <= b.len()
}

/// A datagram parses into a message: its framing holds and its payload
/// decodes under its message type.
pub open spec fn datagram_parses(b: Seq<u8>) -> bool {
    &&& datagram_wf(b)
    &&& {
        let ty = datagram_type(b);
        let p = datagram_payload(b);
        if ty == NLMSG_ERROR {
            p.len() >= ERROR_MESSAGE_LEN
        } else if ty == NLMSG_NOOP || ty == NLMSG_DONE || ty == NLMSG_OVERRUN {
            true
        } else if ty >= AUDIT_GET {
            audit_parse_ok(ty, p)
        } else {
            rtnl_parse_ok(ty, p)
        }
    }
}

/// A failing datagram fails by truncation, as opposed to malformation.
pub open spec fn datagram_truncated(b: Seq<u8>) -> bool {
    if !datagram_wf(b) {
        true
    } else {
        let ty = datagram_type(b);
        let p = datagram_payload(b);
        if ty == NLMSG_ERROR {
            p.len() < ERROR_MESSAGE_LEN
        } else if ty == NLMSG_NOOP || ty == NLMSG_DONE || ty == NLMSG_OVERRUN {
            false
        } else if ty >= AUDIT_GET {
            false
        } else {
            rtnl_truncated(ty, p)
        }
    }
}

/// A datagram is in emitted form: the declared length is exactly the byte
/// count, and the payload is in emitted form for its message type. A
/// message parsed from such a datagram re-emits it byte for byte.
pub open spec fn datagram_canonical(b: Seq<u8>) -> bool {
    &&& datagram_wf(b)
    &&& datagram_length(b) as int == b.len()
    &&& {
        let ty = datagram_type(b);
        let p = datagram_payload(b);
        if ty == NLMSG_ERROR {
            p.len() == ERROR_MESSAGE_LEN
        } else if ty == NLMSG_NOOP || ty == NLMSG_DONE {
            p.len() == 0
        } else if ty == NLMSG_OVERRUN {
            true
        } else if ty >= AUDIT_GET {
            true
        } else {
            rtnl_canonical(ty, p)
        }
    }
}

/// How a decoded payload relates to the message type and payload region
/// it was decoded from. An `NLMSG_ERROR` body with a non-negative code is
/// classified as an acknowledgment, one with a negative code as an error.
pub open spec fn payload_parsed(pl: NetlinkPayload, ty: u16, p: Seq<u8>) -> bool {
    if ty == NLMSG_ERROR {
        let code = spec_u32_from_le_bytes(p.subrange(0, 4)) as i32;
        if code >= 0 {
            pl matches NetlinkPayload::Ack(em) && em.code == code && em.wire() == p.subrange(
                0,
                ERROR_MESSAGE_LEN as int,
            )
        } else {
            pl matches NetlinkPayload::Error(em) && em.code == code && em.wire() == p.subrange(
                0,
                ERROR_MESSAGE_LEN as int,
            )
        }
    } else if ty == NLMSG_NOOP {
        pl matches NetlinkPayload::Noop
    } else if ty == NLMSG_DONE {
        pl matches NetlinkPayload::Done
    } else if ty == NLMSG_OVERRUN {
        pl matches NetlinkPayload::Overrun(v) && v@ == p
    } else if ty >= AUDIT_GET {
        pl matches NetlinkPayload::Audit(am) && audit_parsed(am, ty, p)
    } else {
        pl matches NetlinkPayload::Rtnl(rm) && rtnl_parsed(rm, ty, p)
    }
}

/// Round trip of a whole datagram (with its length invariant): a message
/// decoded from a datagram in emitted form re-emits it byte for byte, its
/// header's length field is exactly its wire size, and its header's
/// message type is already the canonical code of its payload — so
/// finalizing it changes nothing, and serialising it reproduces the
/// datagram.
pub proof fn lemma_datagram_round_trip(m: NetlinkMessage, b: Seq<u8>)
    requires
        datagram_parses(b),
        datagram_canonical(b),
        m.header.wire() == b.subrange(0, NETLINK_HEADER_LEN as int),
        payload_parsed(m.payload, datagram_type(b), datagram_payload(b)),
    ensures
        m.wire() == b,
        m.header.length as int == m.wire().len(),
        m.header.message_type == m.payload.spec_message_type(),
{
    lemma_auto_spec_u16_to_from_le_bytes();
    lemma_auto_spec_u32_to_from_le_bytes();
    lemma_header_wire_len(m.header);
    let ty = datagram_type(b);
    let p = datagram_payload(b);
    assert(spec_u32_to_le_bytes(m.header.length) =~= b.subrange(0, 4)) by {
        assert forall|j: int| 0 <= j < 4 implies spec_u32_to_le_bytes(m.header.length)[j] == b[j]
            by {
            assert(m.header.wire()[j] == spec_u32_to_le_bytes(m.header.length)[j]);
            assert(m.header.wire()[j] == b.subrange(0, NETLINK_HEADER_LEN as int)[j]);
        }
    }
    assert(m.header.length == datagram_length(b));
    assert(spec_u16_to_le_bytes(m.header.message_type) =~= b.subrange(4, 6)) by {
        assert forall|j: int| 0 <= j < 2 implies spec_u16_to_le_bytes(m.header.message_type)[j]
            == b[4 + j] by {
            assert(m.header.wire()[4 + j] == spec_u16_to_le_bytes(m.header.message_type)[j]);
            assert(m.header.wire()[4 + j] == b.subrange(0, NETLINK_HEADER_LEN as int)[4 + j]);
        }
    }
    assert(m.header.message_type == ty);
    if ty == NLMSG_ERROR {
        assert(m.payload.wire() =~= p);
    } else if ty == NLMSG_NOOP || ty == NLMSG_DONE {
        assert(m.payload.wire() =~= p);
    } else if ty == NLMSG_OVERRUN {
    } else if ty >= AUDIT_GET {
        let am = m.payload->Audit_0;
        lemma_audit_round_trip(am, ty, p);
    } else {
        let rm = m.payload->Rtnl_0;
        crate::rtnl::lemma_rtnl_round_trip(rm, ty, p);
    }
    assert(m.wire() =~= b);
}

/// A netlink message: a header and a typed payload, with a one-bit gate
/// that records whether the header has been made consistent with the
/// payload. Parsing yields a finalized message; a message built by value
/// must pass through [`NetlinkMessage::finalize`] before
/// [`NetlinkMessage::to_bytes`] will serialise it.
#[derive(Debug, PartialEq, Eq, Clone)]
pub struct NetlinkMessage {
    pub header: NetlinkHeader,
    pub payload: NetlinkPayload,
    pub finalized: bool,
}

impl NetlinkMessage {
    /// The bytes this message occupies on the wire: the header, then the
    /// payload.
    pub open spec fn wire(self) -> Seq<u8> {
        self.header.wire() + self.payload.wire()
    }

    /// Create a message from the given header and payload; it is not yet
    /// finalized.
    pub fn new(header: NetlinkHeader, payload: NetlinkPayload) -> (r: NetlinkMessage)
        ensures
            r == (NetlinkMessage { header, payload, finalized: false }),
    {
        NetlinkMessage { header, payload, finalized: false }
    }

    /// Split the message into its header and payload.
    pub fn into_parts(self) -> (r: (NetlinkHeader, NetlinkPayload))
        ensures
            r.0 == self.header,
            r.1 == self.payload,
    {
        (self.header, self.payload)
    }

    /// The payload.
    pub fn payload(&self) -> (r: &NetlinkPayload)
        ensures
            r == self.payload,
    {
        &self.payload
    }

    /// A mutable reference to the payload. After changing the payload,
    /// call [`NetlinkMessage::finalize`] again before serialising.
    pub fn payload_mut(&mut self) -> (r: &mut NetlinkPayload)
        ensures
            *r == old(self).payload,
            final(self).payload == *final(r),
            final(self).header == old(self).header,
            final(self).finalized == old(self).finalized,
    {
        &mut self.payload
    }

    /// The header.
    pub fn header(&self) -> (r: &NetlinkHeader)
        ensures
            r == self.header,
    {
        &self.header
    }

    /// A mutable reference to the header.
    pub fn header_mut(&mut self) -> (r: &mut NetlinkHeader)
        ensures
            *r == old(self).header,
            final(self).header == *final(r),
            final(self).payload == old(self).payload,
            final(self).finalized == old(self).finalized,
    {
        &mut self.header
    }

    /// The number of bytes this message occupies on the wire.
    pub fn buffer_len(&self) -> (r: usize)
        requires
            self.payload.wf(),
            self.wire().len() <= u32::MAX,
        ensures
            r == self.wire().len(),
    {
        proof {
            lemma_header_wire_len(self.header);
        }
        NETLINK_HEADER_LEN + self.payload.buffer_len()
    }

    /// Appends the wire form of this message: the header as it stands,
    /// then the payload.
    pub fn emit(&self, out: &mut Vec<u8>)
        requires
            self.payload.wf(),
        ensures
            final(out)@ == old(out)@ + self.wire(),
    {
        self.header.emit(out);
        self.payload.emit(out);
        proof {
            assert(out@ =~= old(out)@ + self.wire());
        }
    }

    /// Make the header consistent with the payload: set the length field
    /// to the wire size of the whole message and the message type to the
    /// payload's canonical code, after which [`NetlinkMessage::to_bytes`]
    /// will serialise the message.
    pub fn finalize(&mut self)
        requires
            old(self).payload.wf(),
            old(self).wire().len() <= u32::MAX,
        ensures
            final(self).header.length == final(self).wire().len(),
            final(self).header.length == NETLINK_HEADER_LEN + old(self).payload.wire().len(),
            final(self).header.message_type == old(self).payload.spec_message_type(),
            final(self).header.flags == old(self).header.flags,
            final(self).header.sequence_number == old(self).header.sequence_number,
            final(self).header.port_number == old(self).header.port_number,
            final(self).payload == old(self).payload,
            final(self).finalized,
    {
        proof {
            lemma_header_wire_len(self.header);
        }
        let total: usize = self.buffer_len();
        self.header.length = total as u32;
        self.header.message_type = self.payload.message_type();
        self.finalized = true;
        proof {
            lemma_header_wire_len(self.header);
        }
    }

    /// Serialise the message into the front of the caller's buffer,
    /// returning the number of bytes written.
    ///
    /// `Malformed` exactly when the message has not been finalized;
    /// `Exhausted` exactly when the buffer is smaller than the message.
    /// Nothing is written unless the whole message fits. The header is
    /// written as it stands: a caller who hand-crafts it after finalizing
    /// is responsible for its consistency.
    pub fn to_bytes(&self, buffer: &mut Vec<u8>) -> (r: Result<usize, Error>)
        requires
            self.payload.wf(),
        ensures
            r is Ok <==> (self.finalized && self.wire().len() <= old(buffer)@.len()),
            r matches Ok(n) ==> {
                &&& n == self.wire().len()
                &&& final(buffer)@ == self.wire() + old(buffer)@.skip(n as int)
                &&& final(buffer)@.len() == old(buffer)@.len()
            },
            r matches Err(e) ==> {
                &&& *final(buffer) == *old(buffer)
                &&& (e is Malformed <==> !self.finalized)
                &&& (e is Exhausted <==> (self.finalized && self.wire().len() > old(
                    buffer,
                )@.len()))
            },
    {
        if !self.finalized {
            return Err(Error::Malformed);
        }
        let mut w: Vec<u8> = Vec::new();
        self.emit(&mut w);
        if buffer.len() < w.len() {
            return Err(Error::Exhausted);
        }
        let n: usize = w.len();
        splice_bytes(buffer, 0, w.as_slice());
        proof {
            assert(buffer@ =~= self.wire() + old(buffer)@.skip(n as int));
        }
        Ok(n)
    }

    /// Parse a message from a byte buffer.
    ///
    /// Succeeds exactly when the framing and the payload decode; the
    /// message comes back finalized, and if the bytes were in emitted form
    /// it re-emits them byte for byte.
    pub fn from_bytes(buffer: &[u8]) -> (r: Result<NetlinkMessage, Error>)
        ensures
            r is Ok <==> datagram_parses(buffer@),
            r matches Ok(m) ==> {
                &&& m.finalized
                &&& m.payload.wf()
                &&& m.header.wire() == buffer@.subrange(0, NETLINK_HEADER_LEN as int)
                &&& m.header.length == datagram_length(buffer@)
                &&& payload_parsed(m.payload, datagram_type(buffer@), datagram_payload(buffer@))
                &&& (datagram_canonical(buffer@) ==> m.wire() == buffer@ && m.header.length as int
                    == m.wire().len())
            },
            r matches Err(e) ==> (e is Truncated <==> datagram_truncated(buffer@)) && (e
                is Truncated || e is Malformed),
    {
        NetlinkBuffer::new(slice_to_vec(buffer)).parse()
    }

    /// Whether the payload is `Done`.
    pub fn is_done(&self) -> (r: bool)
        ensures
            r == (self.payload matches NetlinkPayload::Done),
    {
        self.payload.is_done()
    }

    /// Whether the payload is `Noop`.
    pub fn is_noop(&self) -> (r: bool)
        ensures
            r == (self.payload matches NetlinkPayload::Noop),
    {
        self.payload.is_noop()
    }

    /// Whether the payload is `Overrun`.
    pub fn is_overrun(&self) -> (r: bool)
        ensures
            r == (self.payload matches NetlinkPayload::Overrun(_)),
    {
        self.payload.is_overrun()
    }

    /// Whether the payload is an error with a negative code.
    pub fn is_error(&self) -> (r: bool)
        ensures
            r == (self.payload matches NetlinkPayload::Error(_)),
    {
        self.payload.is_error()
    }

    /// Whether the payload is an acknowledgment.
    pub fn is_ack(&self) -> (r: bool)
        ensures
            r == (self.payload matches NetlinkPayload::Ack(_)),
    {
        self.payload.is_ack()
    }

    /// Whether the payload is a route-netlink message.
    pub fn is_rtnl(&self) -> (r: bool)
        ensures
            r == (self.payload matches NetlinkPayload::Rtnl(_)),
    {
        self.payload.is_rtnl()
    }

    /// Whether the payload is an audit message.
    pub fn is_audit(&self) -> (r: bool)
        ensures
            r == (self.payload matches NetlinkPayload::Audit(_)),
    {
        self.payload.is_audit()
    }
}

impl From<NetlinkPayload> for NetlinkMessage {
    fn from(payload: NetlinkPayload) -> (r: NetlinkMessage) {
        NetlinkMessage {
            header: NetlinkHeader {
                length: 0,
                message_type: 0,
                flags: NetlinkFlags(0),
                sequence_number: 0,
                port_number: 0,
            },
            payload,
            finalized: false,
        }
    }
}

impl vstd::std_specs::convert::FromSpecImpl<NetlinkPayload> for NetlinkMessage {
    open spec fn obeys_from_spec() -> bool {
        true
    }

    open spec fn from_spec(payload: NetlinkPayload) -> NetlinkMessage {
        NetlinkMessage {
            header: NetlinkHeader {
                length: 0,
                message_type: 0,
                flags: NetlinkFlags(0),
                sequence_number: 0,
                port_number: 0,
            },
            payload,
            finalized: false,
        }
    }
}

impl From<RtnlMessage> for NetlinkMessage {
    fn from(msg: RtnlMessage) -> (r: NetlinkMessage) {
        NetlinkMessage::from(NetlinkPayload::Rtnl(msg))
    }
}

impl vstd::std_specs::convert::FromSpecImpl<RtnlMessage> for NetlinkMessage {
    open spec fn obeys_from_spec() -> bool {
        true
    }

    open spec fn from_spec(msg: RtnlMessage) -> NetlinkMessage {
        NetlinkMessage {
            header: NetlinkHeader {
                length: 0,
                message_type: 0,
                flags: NetlinkFlags(0),
                sequence_number: 0,
                port_number: 0,
            },
            payload: NetlinkPayload::Rtnl(msg),
            finalized: false,
        }
    }
}

impl From<AuditMessage> for NetlinkMessage {
    fn from(msg: AuditMessage) -> (r: NetlinkMessage) {
        NetlinkMessage::from(NetlinkPayload::Audit(msg))
    }
}

impl vstd::std_specs::convert::FromSpecImpl<AuditMessage> for NetlinkMessage {
    open spec fn obeys_from_spec() -> bool {
        true
    }

    open spec fn from_spec(msg: AuditMessage) -> NetlinkMessage {
        NetlinkMessage {
            header: NetlinkHeader {
                length: 0,
                message_type: 0,
                flags: NetlinkFlags(0),
                sequence_number: 0,
                port_number: 0,
            },
            payload: NetlinkPayload::Audit(msg),
            finalized: false,
        }
    }
}

impl NetlinkBuffer {
    /// Parse the message held in this buffer: decode the header, then
    /// dispatch on its message type to the standard control messages, the
    /// error body, or the family parsers.
    ///
    /// Succeeds exactly when the framing and the payload decode; the
    /// message comes back finalized, and if the bytes were in emitted form
    /// it re-emits them byte for byte.
    pub fn parse(&self) -> (r: Result<NetlinkMessage, Error>)
        ensures
            r is Ok <==> datagram_parses(self.buffer@),
            r matches Ok(m) ==> {
                &&& m.finalized
                &&& m.payload.wf()
                &&& m.header.wire() == self.buffer@.subrange(0, NETLINK_HEADER_LEN as int)
                &&& m.header.length == datagram_length(self.buffer@)
                &&& payload_parsed(
                    m.payload,
                    datagram_type(self.buffer@),
                    datagram_payload(self.buffer@),
                )
                &&& (datagram_canonical(self.buffer@) ==> m.wire() == self.buffer@
                    && m.header.length as int == m.wire().len())
            },
            r matches Err(e) ==> (e is Truncated <==> datagram_truncated(self.buffer@)) && (e
                is Truncated || e is Malformed),
    {
        match self.check_buffer_length() {
            Ok(_) => {},
            Err(e) => {
                return Err(e);
            },
        }
        let header = self.parse_header();
        let payload_bytes: Vec<u8> = self.payload();
        let ty: u16 = header.message_type;
        let ghost p: Seq<u8> = datagram_payload(self.buffer@);
        proof {
            assert(payload_bytes@ == p);
        }
        let payload: NetlinkPayload = if ty == NLMSG_ERROR {
            let em = match ErrorMessage::parse(payload_bytes.as_slice()) {
                Ok(em) => em,
                Err(e) => {
                    return Err(e);
                },
            };
            if em.code >= 0 {
                NetlinkPayload::Ack(em)
            } else {
                NetlinkPayload::Error(em)
            }
        } else if ty == NLMSG_NOOP {
            NetlinkPayload::Noop
        } else if ty == NLMSG_DONE {
            NetlinkPayload::Done
        } else if ty == NLMSG_OVERRUN {
            NetlinkPayload::Overrun(payload_bytes)
        } else if ty >= AUDIT_GET {
            match AuditMessage::parse(ty, payload_bytes.as_slice()) {
                Ok(am) => NetlinkPayload::Audit(am),
                Err(e) => {
                    return Err(e);
                },
            }
        } else {
            match RtnlMessage::parse(ty, payload_bytes.as_slice()) {
                Ok(rm) => NetlinkPayload::Rtnl(rm),
                Err(e) => {
                    return Err(e);
                },
            }
        };
        let m = NetlinkMessage { header, payload, finalized: true };
        proof {
            if datagram_canonical(self.buffer@) {
                assert(m.wire() =~= self.buffer@);
            }
        }
        Ok(m)
    }
}

} // verus!
