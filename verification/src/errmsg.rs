//! The body of an `NLMSG_ERROR` message: a signed code followed by the
//! echoed header of the request the error answers.

use vstd::prelude::*;
use vstd::bytes::*;

use crate::bytes::{push_u32_le, read_u16_le, read_u32_le};
use crate::constants::ERROR_MESSAGE_LEN;
use crate::errors::Error;
use crate::flags::NetlinkFlags;
use crate::header::NetlinkHeader;

verus! {

/// An `NLMSGERR` body: the negated errno (zero for an acknowledgment) and
/// the original request header, echoed verbatim.
#[derive(Debug, PartialEq, Eq, Clone, Copy, Hash, Structural)]
pub struct ErrorMessage {
    /// The negated errno; non-negative codes acknowledge success.
    pub code: i32,
    /// The header of the message this error answers.
    pub header: NetlinkHeader,
}

/// An `NLMSG_ERROR` body with a non-negative code: a positive
/// acknowledgment. It serialises exactly as [`ErrorMessage`] does; the two
/// are told apart on the parse boundary alone.
pub type AckMessage = ErrorMessage;

impl ErrorMessage {
    /// The 20 bytes this body occupies on the wire.
    pub open spec fn wire(self) -> Seq<u8> {
        spec_u32_to_le_bytes(self.code as u32) + self.header.wire()
    }

    /// The number of bytes this body occupies on the wire.
    pub fn buffer_len(&self) -> (r: usize)
        ensures
            r == self.wire().len(),
            r == ERROR_MESSAGE_LEN,
    {
        proof {
            lemma_error_message_wire_len(*self);
        }
        ERROR_MESSAGE_LEN
    }

    /// Appends the wire form of this body: the code, then the echoed
    /// header.
    pub fn emit(&self, out: &mut Vec<u8>)
        ensures
            final(out)@ == old(out)@ + self.wire(),
    {
        push_u32_le(out, self.code as u32);
        self.header.emit(out);
        proof {
            assert(out@ =~= old(out)@ + self.wire());
        }
    }

    /// Decodes an `NLMSGERR` body from the first 20 bytes of an error
    /// message's payload; `Truncated` when fewer bytes are given. Bytes
    /// beyond the body are ignored.
    pub fn parse(payload: &[u8]) -> (r: Result<ErrorMessage, Error>)
        ensures
            r is Ok <==> payload@.len() >= ERROR_MESSAGE_LEN,
            r matches Ok(m) ==> m.wire() == payload@.subrange(0, ERROR_MESSAGE_LEN as int)
                && m.code == spec_u32_from_le_bytes(payload@.subrange(0, 4)) as i32,
            r matches Err(e) ==> e is Truncated,
    {
        let n: usize = payload.len();
        if n < ERROR_MESSAGE_LEN {
            return Err(Error::Truncated);
        }
        let code_bits: u32 = read_u32_le(payload, 0);
        let header = NetlinkHeader {
            length: read_u32_le(payload, 4),
            message_type: read_u16_le(payload, 8),
            flags: NetlinkFlags(read_u16_le(payload, 10)),
            sequence_number: read_u32_le(payload, 12),
            port_number: read_u32_le(payload, 16),
        };
        let code: i32 = code_bits as i32;
        let m = ErrorMessage { code, header };
        proof {
            lemma_auto_spec_u16_to_from_le_bytes();
            lemma_auto_spec_u32_to_from_le_bytes();
            assert(code as u32 == code_bits) by (bit_vector)
                requires
                    code == code_bits as i32,
            ;
            assert(m.wire() =~= payload@.subrange(0, ERROR_MESSAGE_LEN as int));
        }
        Ok(m)
    }
}

/// The wire form of an error body is always exactly 20 bytes.
pub proof fn lemma_error_message_wire_len(m: ErrorMessage)
    ensures
        m.wire().len() == ERROR_MESSAGE_LEN,
{
    lemma_auto_spec_u32_to_from_le_bytes();
    crate::header::lemma_header_wire_len(m.header);
}

} // verus!
