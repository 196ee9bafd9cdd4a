//! A raw netlink packet buffer: bounds-checked accessors over the bytes of
//! a single datagram.

use vstd::prelude::*;
use vstd::bytes::*;
use vstd::slice::{slice_subrange, slice_to_vec};

use crate::bytes::{read_u16_le, read_u32_le, splice_bytes};
use crate::constants::NETLINK_HEADER_LEN;
use crate::errors::Error;
use crate::flags::NetlinkFlags;
use crate::header::NetlinkHeader;

verus! {

/// A raw netlink buffer that provides getters and setters for the header
/// fields and access to the payload.
#[derive(Debug, PartialEq, Eq, Clone)]
pub struct NetlinkBuffer {
    /// The underlying storage: the bytes of one datagram.
    pub buffer: Vec<u8>,
}

impl NetlinkBuffer {
    /// The `length` field as stored in the first four bytes.
    pub open spec fn spec_length(self) -> u32 {
        spec_u32_from_le_bytes(self.buffer@.subrange(0, 4))
    }

    /// The storage holds a full header region.
    pub open spec fn has_header(self) -> bool {
        self.buffer@.len() >= NETLINK_HEADER_LEN
    }

    /// The storage is consistent: it holds a full header, and the declared
    /// total length covers the header and fits in the storage.
    pub open spec fn wf(self) -> bool {
        &&& self.has_header()
        &&& NETLINK_HEADER_LEN <= self.spec_length() as int <= self.buffer@.len()
    }

    /// The bytes of the payload region, `buffer[16 .. length]`.
    pub open spec fn spec_payload(self) -> Seq<u8> {
        self.buffer@.subrange(NETLINK_HEADER_LEN as int, self.spec_length() as int)
    }

    /// Create a new `NetlinkBuffer` over the given storage. No check is
    /// performed here, so the accessors demand a buffer that is large
    /// enough; use [`NetlinkBuffer::new_checked`] when unsure.
    pub fn new(buffer: Vec<u8>) -> (r: NetlinkBuffer)
        ensures
            r.buffer == buffer,
    {
        NetlinkBuffer { buffer }
    }

    /// Check that the storage is large enough for the header and for the
    /// declared total length, so that no accessor will run out of bounds.
    pub fn check_buffer_length(&self) -> (r: Result<(), Error>)
        ensures
            r is Ok <==> self.wf(),
            r matches Err(e) ==> e is Truncated,
    {
        let len: usize = self.buffer.len();
        if len < NETLINK_HEADER_LEN {
            Err(Error::Truncated)
        } else {
            let declared: u32 = self.length();
            if declared < NETLINK_HEADER_LEN as u32 || len < declared as usize {
                Err(Error::Truncated)
            } else {
                Ok(())
            }
        }
    }

    /// Check the given storage and wrap it; `Truncated` when it is too
    /// small for the header or for the declared total length.
    pub fn new_checked(buffer: Vec<u8>) -> (r: Result<NetlinkBuffer, Error>)
        ensures
            r is Ok <==> (NetlinkBuffer { buffer }).wf(),
            r matches Ok(b) ==> b.buffer == buffer,
            r matches Err(e) ==> e is Truncated,
    {
        let packet = Self::new(buffer);
        match packet.check_buffer_length() {
            Ok(_) => Ok(packet),
            Err(e) => Err(e),
        }
    }

    /// Return the payload length.
    pub fn payload_length(&self) -> (r: usize)
        requires
            self.wf(),
        ensures
            r == self.spec_length() - NETLINK_HEADER_LEN,
    {
        let total_length: usize = self.length() as usize;
        total_length - NETLINK_HEADER_LEN
    }

    /// Consume the packet, returning the underlying storage.
    pub fn into_inner(self) -> (r: Vec<u8>)
        ensures
            r == self.buffer,
    {
        self.buffer
    }

    /// Return the `length` field.
    pub fn length(&self) -> (r: u32)
        requires
            self.has_header(),
        ensures
            r == self.spec_length(),
    {
        read_u32_le(self.buffer.as_slice(), 0)
    }

    /// Return the `message_type` field.
    pub fn message_type(&self) -> (r: u16)
        requires
            self.has_header(),
        ensures
            r == spec_u16_from_le_bytes(self.buffer@.subrange(4, 6)),
    {
        read_u16_le(self.buffer.as_slice(), 4)
    }

    /// Return the `flags` field.
    pub fn flags(&self) -> (r: NetlinkFlags)
        requires
            self.has_header(),
        ensures
            r.0 == spec_u16_from_le_bytes(self.buffer@.subrange(6, 8)),
    {
        NetlinkFlags(read_u16_le(self.buffer.as_slice(), 6))
    }

    /// Return the `sequence_number` field.
    pub fn sequence_number(&self) -> (r: u32)
        requires
            self.has_header(),
        ensures
            r == spec_u32_from_le_bytes(self.buffer@.subrange(8, 12)),
    {
        read_u32_le(self.buffer.as_slice(), 8)
    }

    /// Return the `port_number` field.
    pub fn port_number(&self) -> (r: u32)
        requires
            self.has_header(),
        ensures
            r == spec_u32_from_le_bytes(self.buffer@.subrange(12, 16)),
    {
        read_u32_le(self.buffer.as_slice(), 12)
    }

    /// Set the `length` field.
    pub fn set_length(&mut self, value: u32)
        requires
            old(self).has_header(),
        ensures
            final(self).buffer@ == old(self).buffer@.subrange(0, 0) + spec_u32_to_le_bytes(value)
                + old(self).buffer@.subrange(4, old(self).buffer@.len() as int),
            final(self).buffer@.len() == old(self).buffer@.len(),
    {
        let bytes: Vec<u8> = u32_to_le_bytes(value);
        splice_bytes(&mut self.buffer, 0, bytes.as_slice());
    }

    /// Set the `message_type` field.
    pub fn set_message_type(&mut self, value: u16)
        requires
            old(self).has_header(),
        ensures
            final(self).buffer@ == old(self).buffer@.subrange(0, 4) + spec_u16_to_le_bytes(value)
                + old(self).buffer@.subrange(6, old(self).buffer@.len() as int),
            final(self).buffer@.len() == old(self).buffer@.len(),
    {
        let bytes: Vec<u8> = u16_to_le_bytes(value);
        splice_bytes(&mut self.buffer, 4, bytes.as_slice());
    }

    /// Set the `flags` field.
    pub fn set_flags(&mut self, value: NetlinkFlags)
        requires
            old(self).has_header(),
        ensures
            final(self).buffer@ == old(self).buffer@.subrange(0, 6) + spec_u16_to_le_bytes(value.0)
                + old(self).buffer@.subrange(8, old(self).buffer@.len() as int),
            final(self).buffer@.len() == old(self).buffer@.len(),
    {
        let bytes: Vec<u8> = u16_to_le_bytes(value.0);
        splice_bytes(&mut self.buffer, 6, bytes.as_slice());
    }

    /// Set the `sequence_number` field.
    pub fn set_sequence_number(&mut self, value: u32)
        requires
            old(self).has_header(),
        ensures
            final(self).buffer@ == old(self).buffer@.subrange(0, 8) + spec_u32_to_le_bytes(value)
                + old(self).buffer@.subrange(12, old(self).buffer@.len() as int),
            final(self).buffer@.len() == old(self).buffer@.len(),
    {
        let bytes: Vec<u8> = u32_to_le_bytes(value);
        splice_bytes(&mut self.buffer, 8, bytes.as_slice());
    }

    /// Set the `port_number` field.
    pub fn set_port_number(&mut self, value: u32)
        requires
            old(self).has_header(),
        ensures
            final(self).buffer@ == old(self).buffer@.subrange(0, 12) + spec_u32_to_le_bytes(value)
                + old(self).buffer@.subrange(16, old(self).buffer@.len() as int),
            final(self).buffer@.len() == old(self).buffer@.len(),
    {
        let bytes: Vec<u8> = u32_to_le_bytes(value);
        splice_bytes(&mut self.buffer, 12, bytes.as_slice());
    }

    /// Return a copy of the payload region.
    pub fn payload(&self) -> (r: Vec<u8>)
        requires
            self.wf(),
        ensures
            r@ == self.spec_payload(),
    {
        let end: usize = self.length() as usize;
        slice_to_vec(slice_subrange(self.buffer.as_slice(), NETLINK_HEADER_LEN, end))
    }

    /// Overwrite the payload region with the given bytes, which must fill
    /// it exactly.
    pub fn set_payload(&mut self, data: &[u8])
        requires
            old(self).wf(),
            data@.len() == old(self).spec_length() - NETLINK_HEADER_LEN,
        ensures
            final(self).buffer@ == old(self).buffer@.subrange(0, NETLINK_HEADER_LEN as int)
                + data@ + old(self).buffer@.subrange(
                old(self).spec_length() as int,
                old(self).buffer@.len() as int,
            ),
            final(self).buffer@.len() == old(self).buffer@.len(),
    {
        splice_bytes(&mut self.buffer, NETLINK_HEADER_LEN, data);
    }

    /// Decode the header fields into a [`NetlinkHeader`].
    pub fn parse_header(&self) -> (r: NetlinkHeader)
        requires
            self.has_header(),
        ensures
            r.length == self.spec_length(),
            r.message_type == spec_u16_from_le_bytes(self.buffer@.subrange(4, 6)),
            r.flags.0 == spec_u16_from_le_bytes(self.buffer@.subrange(6, 8)),
            r.sequence_number == spec_u32_from_le_bytes(self.buffer@.subrange(8, 12)),
            r.port_number == spec_u32_from_le_bytes(self.buffer@.subrange(12, 16)),
            r.wire() == self.buffer@.subrange(0, 16),
    {
        let r = NetlinkHeader {
            length: self.length(),
            message_type: self.message_type(),
            flags: self.flags(),
            sequence_number: self.sequence_number(),
            port_number: self.port_number(),
        };
        proof {
            lemma_auto_spec_u16_to_from_le_bytes();
            lemma_auto_spec_u32_to_from_le_bytes();
            assert(r.wire() =~= self.buffer@.subrange(0, 16));
        }
        r
    }
}

} // verus!
