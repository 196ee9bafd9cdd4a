//! The audit-netlink family payload: the typed `audit_status` struct
//! carried by the status commands, with every other audit body (rules,
//! user messages, event records) preserved verbatim under its type code,
//! so that every audit datagram round-trips byte for byte.

use vstd::prelude::*;
use vstd::bytes::*;
use vstd::slice::{slice_subrange, slice_to_vec};

use crate::bytes::{push_slice, push_u32_le, read_u32_le};
use crate::constants::{
    AUDIT_GET, AUDIT_SET, AUDIT_STATUS_LEN, NLMSG_DONE, NLMSG_ERROR, NLMSG_NOOP, NLMSG_OVERRUN,
};
use crate::errmsg::{AckMessage, ErrorMessage};
use crate::errors::Error;

verus! {

/// The kernel's `audit_status` struct: ten 32-bit counters, read and
/// written field by field in wire order. Bytes past the ten counters —
/// newer kernels extend the struct — are preserved verbatim in `tail`.
#[derive(Debug, PartialEq, Eq, Clone)]
pub struct AuditStatus {
    /// Which of the other fields a set request means to apply
    /// (`AUDIT_STATUS_*` bits).
    pub mask: u32,
    /// Whether auditing is enabled.
    pub enabled: u32,
    /// What to do on failure to log.
    pub failure: u32,
    /// PID of the audit daemon.
    pub pid: u32,
    /// Messages per second accepted before throttling.
    pub rate_limit: u32,
    /// Maximum number of outstanding audit buffers.
    pub backlog_limit: u32,
    /// Number of messages lost.
    pub lost: u32,
    /// Number of messages waiting in the backlog.
    pub backlog: u32,
    /// Bitmap of the kernel's audit features.
    pub feature_bitmap: u32,
    /// How long to wait when the backlog limit is hit.
    pub backlog_wait_time: u32,
    /// Bytes past the ten counters, preserved verbatim.
    pub tail: Vec<u8>,
}

/// How a decoded status relates to the payload it was decoded from: each
/// counter is the little-endian read at its wire offset, and the bytes
/// past the counters are kept as the tail.
pub open spec fn audit_status_parsed(st: AuditStatus, b: Seq<u8>) -> bool {
    &&& b.len() >= AUDIT_STATUS_LEN
    &&& st.mask == spec_u32_from_le_bytes(b.subrange(0, 4))
    &&& st.enabled == spec_u32_from_le_bytes(b.subrange(4, 8))
    &&& st.failure == spec_u32_from_le_bytes(b.subrange(8, 12))
    &&& st.pid == spec_u32_from_le_bytes(b.subrange(12, 16))
    &&& st.rate_limit == spec_u32_from_le_bytes(b.subrange(16, 20))
    &&& st.backlog_limit == spec_u32_from_le_bytes(b.subrange(20, 24))
    &&& st.lost == spec_u32_from_le_bytes(b.subrange(24, 28))
    &&& st.backlog == spec_u32_from_le_bytes(b.subrange(28, 32))
    &&& st.feature_bitmap == spec_u32_from_le_bytes(b.subrange(32, 36))
    &&& st.backlog_wait_time == spec_u32_from_le_bytes(b.subrange(36, 40))
    &&& st.tail@ == b.skip(AUDIT_STATUS_LEN as int)
}

impl AuditStatus {
    /// The bytes this struct occupies on the wire: the ten counters, then
    /// the preserved tail.
    pub open spec fn wire(self) -> Seq<u8> {
        spec_u32_to_le_bytes(self.mask) + spec_u32_to_le_bytes(self.enabled)
            + spec_u32_to_le_bytes(self.failure) + spec_u32_to_le_bytes(self.pid)
            + spec_u32_to_le_bytes(self.rate_limit) + spec_u32_to_le_bytes(self.backlog_limit)
            + spec_u32_to_le_bytes(self.lost) + spec_u32_to_le_bytes(self.backlog)
            + spec_u32_to_le_bytes(self.feature_bitmap) + spec_u32_to_le_bytes(
            self.backlog_wait_time,
        ) + self.tail@
    }

    /// The number of bytes this struct occupies on the wire.
    pub fn buffer_len(&self) -> (r: usize)
        requires
            self.wire().len() <= usize::MAX,
        ensures
            r == self.wire().len(),
    {
        proof {
            lemma_auto_spec_u32_to_from_le_bytes();
        }
        AUDIT_STATUS_LEN + self.tail.len()
    }

    /// Appends the wire form of this struct.
    pub fn emit(&self, out: &mut Vec<u8>)
        ensures
            final(out)@ == old(out)@ + self.wire(),
    {
        push_u32_le(out, self.mask);
        push_u32_le(out, self.enabled);
        push_u32_le(out, self.failure);
        push_u32_le(out, self.pid);
        push_u32_le(out, self.rate_limit);
        push_u32_le(out, self.backlog_limit);
        push_u32_le(out, self.lost);
        push_u32_le(out, self.backlog);
        push_u32_le(out, self.feature_bitmap);
        push_u32_le(out, self.backlog_wait_time);
        push_slice(out, self.tail.as_slice());
        proof {
            assert(out@ =~= old(out)@ + self.wire());
        }
    }

    /// Decodes a status from a command payload; a payload shorter than
    /// the ten counters is a malformation. A decoded status re-emits its
    /// payload byte for byte.
    pub fn parse(payload: &[u8]) -> (r: Result<AuditStatus, Error>)
        ensures
            r is Ok <==> payload@.len() >= AUDIT_STATUS_LEN,
            r matches Ok(st) ==> audit_status_parsed(st, payload@) && st.wire() == payload@,
            r matches Err(e) ==> e is Malformed,
    {
        let n: usize = payload.len();
        if n < AUDIT_STATUS_LEN {
            return Err(Error::Malformed);
        }
        let st = AuditStatus {
            mask: read_u32_le(payload, 0),
            enabled: read_u32_le(payload, 4),
            failure: read_u32_le(payload, 8),
            pid: read_u32_le(payload, 12),
            rate_limit: read_u32_le(payload, 16),
            backlog_limit: read_u32_le(payload, 20),
            lost: read_u32_le(payload, 24),
            backlog: read_u32_le(payload, 28),
            feature_bitmap: read_u32_le(payload, 32),
            backlog_wait_time: read_u32_le(payload, 36),
            tail: slice_to_vec(slice_subrange(payload, AUDIT_STATUS_LEN, n)),
        };
        proof {
            lemma_auto_spec_u32_to_from_le_bytes();
            assert(st.tail@ =~= payload@.skip(AUDIT_STATUS_LEN as int));
            assert(st.wire() =~= payload@);
        }
        Ok(st)
    }
}

/// An audit-netlink payload, keyed on the message type of its datagram.
#[derive(Debug, PartialEq, Eq, Clone)]
pub enum AuditMessage {
    Done,
    Error(ErrorMessage),
    Ack(AckMessage),
    Noop,
    Overrun(Vec<u8>),
    /// An `AUDIT_GET` status query: empty when asking, carrying the
    /// current status when answered.
    GetStatus(Option<AuditStatus>),
    /// An `AUDIT_SET` status command.
    SetStatus(AuditStatus),
    /// Any other audit message body, preserved verbatim together with its
    /// type code.
    Other { message_type: u16, data: Vec<u8> },
}

/// An audit payload of the given type decodes: the status commands demand
/// at least the ten counters (or, for a query, an empty body); every
/// other audit body is taken as it is.
pub open spec fn audit_parse_ok(ty: u16, b: Seq<u8>) -> bool {
    if ty == AUDIT_GET {
        b.len() == 0 || b.len() >= AUDIT_STATUS_LEN
    } else if ty == AUDIT_SET {
        b.len() >= AUDIT_STATUS_LEN
    } else {
        true
    }
}

/// How a decoded audit payload relates to the message type and payload
/// bytes it was decoded from.
pub open spec fn audit_parsed(am: AuditMessage, ty: u16, b: Seq<u8>) -> bool {
    if ty == AUDIT_GET {
        if b.len() == 0 {
            am matches AuditMessage::GetStatus(o) && o is None
        } else {
            am matches AuditMessage::GetStatus(o) && o matches Some(st) && audit_status_parsed(st, b)
        }
    } else if ty == AUDIT_SET {
        am matches AuditMessage::SetStatus(st) && audit_status_parsed(st, b)
    } else {
        am matches AuditMessage::Other { message_type, data } && message_type == ty && data@ == b
    }
}

/// Round trip of an audit payload: one decoded from a payload re-emits it
/// byte for byte, under its own message type.
pub proof fn lemma_audit_round_trip(am: AuditMessage, ty: u16, b: Seq<u8>)
    requires
        audit_parse_ok(ty, b),
        audit_parsed(am, ty, b),
    ensures
        am.wire() == b,
        am.spec_message_type() == ty,
{
    lemma_auto_spec_u32_to_from_le_bytes();
    if ty == AUDIT_GET && b.len() == 0 {
        assert(am.wire() =~= b);
    } else if ty == AUDIT_GET || ty == AUDIT_SET {
        let st = if ty == AUDIT_GET {
            am->GetStatus_0->Some_0
        } else {
            am->SetStatus_0
        };
        assert(st.wire() =~= b);
    }
}

impl AuditMessage {
    /// The message type code this payload finalizes under.
    pub open spec fn spec_message_type(self) -> u16 {
        match self {
            AuditMessage::Done => NLMSG_DONE,
            AuditMessage::Error(_) => NLMSG_ERROR,
            AuditMessage::Ack(_) => NLMSG_ERROR,
            AuditMessage::Noop => NLMSG_NOOP,
            AuditMessage::Overrun(_) => NLMSG_OVERRUN,
            AuditMessage::GetStatus(_) => AUDIT_GET,
            AuditMessage::SetStatus(_) => AUDIT_SET,
            AuditMessage::Other { message_type, .. } => message_type,
        }
    }

    /// The message type code this payload finalizes under.
    pub fn message_type(&self) -> (r: u16)
        ensures
            r == self.spec_message_type(),
    {
        match self {
            AuditMessage::Done => NLMSG_DONE,
            AuditMessage::Error(_) => NLMSG_ERROR,
            AuditMessage::Ack(_) => NLMSG_ERROR,
            AuditMessage::Noop => NLMSG_NOOP,
            AuditMessage::Overrun(_) => NLMSG_OVERRUN,
            AuditMessage::GetStatus(_) => AUDIT_GET,
            AuditMessage::SetStatus(_) => AUDIT_SET,
            AuditMessage::Other { message_type, .. } => *message_type,
        }
    }

    /// The bytes this payload occupies on the wire.
    pub open spec fn wire(self) -> Seq<u8> {
        match self {
            AuditMessage::Done => Seq::<u8>::empty(),
            AuditMessage::Error(em) => em.wire(),
            AuditMessage::Ack(em) => em.wire(),
            AuditMessage::Noop => Seq::<u8>::empty(),
            AuditMessage::Overrun(v) => v@,
            AuditMessage::GetStatus(o) => match o {
                Some(st) => st.wire(),
                None => Seq::<u8>::empty(),
            },
            AuditMessage::SetStatus(st) => st.wire(),
            AuditMessage::Other { data, .. } => data@,
        }
    }

    /// The number of bytes this payload occupies on the wire.
    pub fn buffer_len(&self) -> (r: usize)
        requires
            self.wire().len() <= u32::MAX,
        ensures
            r == self.wire().len(),
    {
        match self {
            AuditMessage::Done => 0,
            AuditMessage::Error(em) => em.buffer_len(),
            AuditMessage::Ack(em) => em.buffer_len(),
            AuditMessage::Noop => 0,
            AuditMessage::Overrun(v) => v.len(),
            AuditMessage::GetStatus(o) => match o {
                Some(st) => st.buffer_len(),
                None => 0,
            },
            AuditMessage::SetStatus(st) => st.buffer_len(),
            AuditMessage::Other { data, .. } => data.len(),
        }
    }

    /// Appends the wire form of this payload.
    pub fn emit(&self, out: &mut Vec<u8>)
        ensures
            final(out)@ == old(out)@ + self.wire(),
    {
        match self {
            AuditMessage::Done => {
                proof {
                    assert(out@ =~= old(out)@ + self.wire());
                }
            },
            AuditMessage::Error(em) => em.emit(out),
            AuditMessage::Ack(em) => em.emit(out),
            AuditMessage::Noop => {
                proof {
                    assert(out@ =~= old(out)@ + self.wire());
                }
            },
            AuditMessage::Overrun(v) => push_slice(out, v.as_slice()),
            AuditMessage::GetStatus(o) => match o {
                Some(st) => st.emit(out),
                None => {
                    proof {
                        assert(out@ =~= old(out)@ + self.wire());
                    }
                },
            },
            AuditMessage::SetStatus(st) => st.emit(out),
            AuditMessage::Other { data, .. } => push_slice(out, data.as_slice()),
        }
    }

    /// Decodes an audit payload, dispatching on the message type of the
    /// datagram it arrived under: the status commands decode to
    /// [`AuditStatus`], every other body is kept verbatim under its type
    /// code. A decoded payload re-emits byte for byte.
    pub fn parse(message_type: u16, payload: &[u8]) -> (r: Result<AuditMessage, Error>)
        ensures
            r is Ok <==> audit_parse_ok(message_type, payload@),
            r matches Ok(am) ==> {
                &&& audit_parsed(am, message_type, payload@)
                &&& am.spec_message_type() == message_type
                &&& am.wire() == payload@
            },
            r matches Err(e) ==> e is Malformed,
    {
        if message_type == AUDIT_GET {
            if payload.len() == 0 {
                proof {
                    assert(Seq::<u8>::empty() =~= payload@);
                }
                Ok(AuditMessage::GetStatus(None))
            } else {
                match AuditStatus::parse(payload) {
                    Ok(st) => Ok(AuditMessage::GetStatus(Some(st))),
                    Err(e) => Err(e),
                }
            }
        } else if message_type == AUDIT_SET {
            match AuditStatus::parse(payload) {
                Ok(st) => Ok(AuditMessage::SetStatus(st)),
                Err(e) => Err(e),
            }
        } else {
            Ok(AuditMessage::Other { message_type, data: slice_to_vec(payload) })
        }
    }

    /// Whether this payload is `Done`.
    pub fn is_done(&self) -> (r: bool)
        ensures
            r == (self matches AuditMessage::Done),
    {
        matches!(self, AuditMessage::Done)
    }

    /// Whether this payload is `Noop`.
    pub fn is_noop(&self) -> (r: bool)
        ensures
            r == (self matches AuditMessage::Noop),
    {
        matches!(self, AuditMessage::Noop)
    }

    /// Whether this payload is `Overrun`.
    pub fn is_overrun(&self) -> (r: bool)
        ensures
            r == (self matches AuditMessage::Overrun(_)),
    {
        matches!(self, AuditMessage::Overrun(_))
    }

    /// Whether this payload is an error with a negative code.
    pub fn is_error(&self) -> (r: bool)
        ensures
            r == (self matches AuditMessage::Error(_)),
    {
        matches!(self, AuditMessage::Error(_))
    }

    /// Whether this payload is an acknowledgment.
    pub fn is_ack(&self) -> (r: bool)
        ensures
            r == (self matches AuditMessage::Ack(_)),
    {
        matches!(self, AuditMessage::Ack(_))
    }
}

} // verus!
