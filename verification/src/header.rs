//! The fixed 16-byte netlink message header.

use vstd::prelude::*;
use vstd::bytes::*;

use crate::bytes::{push_u16_le, push_u32_le};
use crate::flags::NetlinkFlags;

verus! {

/// A netlink header.
///
/// On the wire it occupies 16 bytes, all fields host-endian:
/// the total packet length (header included), the message type, the flag
/// word, the sequence number and the port number.
#[derive(Debug, PartialEq, Eq, Clone, Copy, Hash, Structural)]
pub struct NetlinkHeader {
    /// Length of the packet, including this header and the payload.
    pub length: u32,
    /// Message type; its meaning depends on the protocol family in use.
    pub message_type: u16,
    /// Flag word.
    pub flags: NetlinkFlags,
    /// Sequence number of the packet.
    pub sequence_number: u32,
    /// Port number (usually the process ID of the peer).
    pub port_number: u32,
}

impl NetlinkHeader {
    /// The 16 bytes this header occupies on the wire.
    pub open spec fn wire(self) -> Seq<u8> {
        spec_u32_to_le_bytes(self.length) + spec_u16_to_le_bytes(self.message_type)
            + spec_u16_to_le_bytes(self.flags.0) + spec_u32_to_le_bytes(self.sequence_number)
            + spec_u32_to_le_bytes(self.port_number)
    }

    /// Create a new header, initialized with the given values.
    pub fn new(
        length: u32,
        message_type: u16,
        flags: NetlinkFlags,
        sequence_number: u32,
        port_number: u32,
    ) -> (r: Self)
        ensures
            r == (NetlinkHeader { length, message_type, flags, sequence_number, port_number }),
    {
        NetlinkHeader { length, message_type, flags, sequence_number, port_number }
    }

    /// Get the length field.
    pub fn length(&self) -> (r: u32)
        ensures
            r == self.length,
    {
        self.length
    }

    /// Get a mutable reference to the length field.
    pub fn length_mut(&mut self) -> (r: &mut u32)
        ensures
            *r == old(self).length,
            *final(self) == (NetlinkHeader { length: *final(r), ..*old(self) }),
    {
        &mut self.length
    }

    /// Setter for the length field.
    pub fn set_length(&mut self, value: u32)
        ensures
            *final(self) == (NetlinkHeader { length: value, ..*old(self) }),
    {
        self.length = value;
    }

    /// Get the message type field.
    pub fn message_type(&self) -> (r: u16)
        ensures
            r == self.message_type,
    {
        self.message_type
    }

    /// Get a mutable reference to the message type field.
    pub fn message_type_mut(&mut self) -> (r: &mut u16)
        ensures
            *r == old(self).message_type,
            *final(self) == (NetlinkHeader { message_type: *final(r), ..*old(self) }),
    {
        &mut self.message_type
    }

    /// Setter for the message type field.
    pub fn set_message_type(&mut self, value: u16)
        ensures
            *final(self) == (NetlinkHeader { message_type: value, ..*old(self) }),
    {
        self.message_type = value;
    }

    /// Get the flags field.
    pub fn flags(&self) -> (r: NetlinkFlags)
        ensures
            r == self.flags,
    {
        self.flags
    }

    /// Get a mutable reference to the flags field.
    pub fn flags_mut(&mut self) -> (r: &mut NetlinkFlags)
        ensures
            *r == old(self).flags,
            *final(self) == (NetlinkHeader { flags: *final(r), ..*old(self) }),
    {
        &mut self.flags
    }

    /// Setter for the flags field.
    pub fn set_flags(&mut self, value: NetlinkFlags)
        ensures
            *final(self) == (NetlinkHeader { flags: value, ..*old(self) }),
    {
        self.flags = value;
    }

    /// Get the sequence number field.
    pub fn sequence_number(&self) -> (r: u32)
        ensures
            r == self.sequence_number,
    {
        self.sequence_number
    }

    /// Get a mutable reference to the sequence number field.
    pub fn sequence_number_mut(&mut self) -> (r: &mut u32)
        ensures
            *r == old(self).sequence_number,
            *final(self) == (NetlinkHeader { sequence_number: *final(r), ..*old(self) }),
    {
        &mut self.sequence_number
    }

    /// Setter for the sequence number field.
    pub fn set_sequence_number(&mut self, value: u32)
        ensures
            *final(self) == (NetlinkHeader { sequence_number: value, ..*old(self) }),
    {
        self.sequence_number = value;
    }

    /// Get the port number field.
    pub fn port_number(&self) -> (r: u32)
        ensures
            r == self.port_number,
    {
        self.port_number
    }

    /// Get a mutable reference to the port number field.
    pub fn port_number_mut(&mut self) -> (r: &mut u32)
        ensures
            *r == old(self).port_number,
            *final(self) == (NetlinkHeader { port_number: *final(r), ..*old(self) }),
    {
        &mut self.port_number
    }

    /// Setter for the port number field.
    pub fn set_port_number(&mut self, value: u32)
        ensures
            *final(self) == (NetlinkHeader { port_number: value, ..*old(self) }),
    {
        self.port_number = value;
    }

    /// The number of bytes this header occupies on the wire.
    pub fn buffer_len(&self) -> (r: usize)
        ensures
            r == self.wire().len(),
            r == 16,
    {
        proof {
            lemma_auto_spec_u16_to_from_le_bytes();
            lemma_auto_spec_u32_to_from_le_bytes();
        }
        16
    }

    /// Appends the wire form of this header.
    pub fn emit(&self, buffer: &mut Vec<u8>)
        ensures
            final(buffer)@ == old(buffer)@ + self.wire(),
    {
        push_u32_le(buffer, self.length);
        push_u16_le(buffer, self.message_type);
        push_u16_le(buffer, self.flags.0);
        push_u32_le(buffer, self.sequence_number);
        push_u32_le(buffer, self.port_number);
        proof {
            assert(buffer@ =~= old(buffer)@ + self.wire());
        }
    }
}

impl Default for NetlinkHeader {
    fn default() -> (r: NetlinkHeader)
        ensures
            r == (NetlinkHeader {
                length: 0u32,
                message_type: 0u16,
                flags: NetlinkFlags(0u16),
                sequence_number: 0u32,
                port_number: 0u32,
            }),
    {
        NetlinkHeader {
            length: 0,
            message_type: 0,
            flags: NetlinkFlags(0),
            sequence_number: 0,
            port_number: 0,
        }
    }
}

/// The wire form of a header is always exactly 16 bytes.
pub proof fn lemma_header_wire_len(h: NetlinkHeader)
    ensures
        h.wire().len() == 16,
{
    lemma_auto_spec_u16_to_from_le_bytes();
    lemma_auto_spec_u32_to_from_le_bytes();
}

} // verus!
