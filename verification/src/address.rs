//! The rtnetlink address family: the fixed `ifaddrmsg` header and whole
//! address messages. Address attributes are carried verbatim, each under
//! its own tag.

use vstd::prelude::*;
use vstd::bytes::*;
use vstd::slice::slice_subrange;

use crate::bytes::{push_u32_le, read_u32_le};
use crate::constants::ADDRESS_HEADER_LEN;
use crate::errors::Error;
use crate::nla::{
    concat_wires, lemma_concat_wires_snoc, lemma_run_offset_concat, nla_run_canonical,
    nla_run_error_truncated, nla_run_items, nla_run_ok, nla_wire, parse_nlas, run_offset,
    DefaultNla,
};

verus! {

/// The fixed rtnetlink address header (`ifaddrmsg`): 8 bytes.
#[derive(Debug, PartialEq, Eq, Clone, Copy, Hash, Default, Structural)]
pub struct AddressHeader {
    /// Address family.
    pub family: u8,
    /// Prefix length of the address.
    pub prefix_len: u8,
    /// Address flags (`IFA_F_*` bits).
    pub flags: u8,
    /// Address scope.
    pub scope: u8,
    /// Interface index.
    pub index: u32,
}

impl AddressHeader {
    /// The 8 bytes this header occupies on the wire.
    pub open spec fn wire(self) -> Seq<u8> {
        seq![self.family, self.prefix_len, self.flags, self.scope] + spec_u32_to_le_bytes(
            self.index,
        )
    }

    /// The number of bytes this header occupies on the wire.
    pub fn buffer_len(&self) -> (r: usize)
        ensures
            r == self.wire().len(),
            r == ADDRESS_HEADER_LEN,
    {
        proof {
            lemma_address_header_wire_len(*self);
        }
        ADDRESS_HEADER_LEN
    }

    /// Appends the wire form of this header.
    pub fn emit(&self, out: &mut Vec<u8>)
        ensures
            final(out)@ == old(out)@ + self.wire(),
    {
        out.push(self.family);
        out.push(self.prefix_len);
        out.push(self.flags);
        out.push(self.scope);
        push_u32_le(out, self.index);
        proof {
            assert(out@ =~= old(out)@ + self.wire());
        }
    }

    /// Decodes the fixed header from the first 8 bytes.
    pub fn parse(payload: &[u8]) -> (r: AddressHeader)
        requires
            payload@.len() >= ADDRESS_HEADER_LEN,
        ensures
            r.family == payload@[0],
            r.prefix_len == payload@[1],
            r.flags == payload@[2],
            r.scope == payload@[3],
            r.index == spec_u32_from_le_bytes(payload@.subrange(4, 8)),
            r.wire() == payload@.subrange(0, ADDRESS_HEADER_LEN as int),
    {
        let r = AddressHeader {
            family: payload[0],
            prefix_len: payload[1],
            flags: payload[2],
            scope: payload[3],
            index: read_u32_le(payload, 4),
        };
        proof {
            lemma_auto_spec_u32_to_from_le_bytes();
            assert(r.wire() =~= payload@.subrange(0, ADDRESS_HEADER_LEN as int));
        }
        r
    }
}

/// The wire form of an address header is always exactly 8 bytes.
pub proof fn lemma_address_header_wire_len(h: AddressHeader)
    ensures
        h.wire().len() == ADDRESS_HEADER_LEN,
{
    lemma_auto_spec_u32_to_from_le_bytes();
}

/// A whole address message: the fixed header followed by its attributes,
/// each preserved verbatim.
#[derive(Debug, PartialEq, Eq, Clone)]
pub struct AddressMessage {
    pub header: AddressHeader,
    pub nlas: Vec<DefaultNla>,
}

/// An address message's payload decodes: the fixed header is present and
/// the attribute run is well formed.
pub open spec fn address_payload_ok(b: Seq<u8>) -> bool {
    &&& b.len() >= ADDRESS_HEADER_LEN
    &&& nla_run_ok(b.skip(ADDRESS_HEADER_LEN as int))
}

/// An address message's payload is in emitted form: the attribute run is
/// padded canonically.
pub open spec fn address_payload_canonical(b: Seq<u8>) -> bool {
    &&& b.len() >= ADDRESS_HEADER_LEN
    &&& nla_run_canonical(b.skip(ADDRESS_HEADER_LEN as int))
}

/// How a decoded address message relates to the payload it was decoded
/// from.
pub open spec fn address_message_parsed(m: AddressMessage, b: Seq<u8>) -> bool {
    &&& b.len() >= ADDRESS_HEADER_LEN
    &&& m.header.family == b[0]
    &&& m.header.prefix_len == b[1]
    &&& m.header.flags == b[2]
    &&& m.header.scope == b[3]
    &&& m.header.index == spec_u32_from_le_bytes(b.subrange(4, 8))
    &&& m.wf()
    &&& m.nlas@.map_values(|d: DefaultNla| (d.kind, d.value@)) == nla_run_items(
        b.skip(ADDRESS_HEADER_LEN as int),
    )
}

impl AddressMessage {
    /// The bytes this message occupies on the wire: the fixed header, then
    /// the attributes back to back.
    pub open spec fn wire(self) -> Seq<u8> {
        self.header.wire() + concat_wires(self.nlas@.map_values(|d: DefaultNla| d.wire()))
    }

    /// Every attribute value fits its length field.
    pub open spec fn wf(self) -> bool {
        forall|i: int| 0 <= i < self.nlas@.len() ==> (#[trigger] self.nlas@[i]).wf()
    }

    /// The number of bytes this message occupies on the wire.
    pub fn buffer_len(&self) -> (r: usize)
        requires
            self.wf(),
            self.wire().len() <= u32::MAX,
        ensures
            r == self.wire().len(),
    {
        let ghost ws: Seq<Seq<u8>> = self.nlas@.map_values(|d: DefaultNla| d.wire());
        let mut acc: usize = self.header.buffer_len();
        let n: usize = self.nlas.len();
        let mut i: usize = 0;
        proof {
            lemma_run_offset_concat(ws, ws.len() as int);
        }
        while i < n
            invariant
                i <= n,
                n == self.nlas@.len(),
                self.wf(),
                ws == self.nlas@.map_values(|x: DefaultNla| x.wire()),
                acc == ADDRESS_HEADER_LEN + run_offset(ws, i as int),
                run_offset(ws, ws.len() as int) == concat_wires(ws).len(),
                self.wire().len() == ADDRESS_HEADER_LEN + concat_wires(ws).len(),
                self.wire().len() <= u32::MAX,
            decreases n - i,
        {
            proof {
                lemma_run_offset_concat(ws, i as int);
                lemma_run_offset_concat(ws, i + 1);
                assert(run_offset(ws, i + 1) == run_offset(ws, i as int) + ws[i as int].len());
            }
            acc = acc + self.nlas[i].buffer_len();
            i = i + 1;
        }
        acc
    }

    /// Appends the wire form of this message.
    pub fn emit(&self, out: &mut Vec<u8>)
        requires
            self.wf(),
        ensures
            final(out)@ == old(out)@ + self.wire(),
    {
        self.header.emit(out);
        crate::nla::emit_nlas(&self.nlas, out);
        proof {
            assert(out@ =~= old(out)@ + self.wire());
        }
    }
}

/// Round trip of an address message: one decoded from a payload in
/// emitted form re-emits that payload byte for byte.
pub proof fn lemma_address_message_round_trip(m: AddressMessage, b: Seq<u8>)
    requires
        address_payload_ok(b),
        address_payload_canonical(b),
        address_message_parsed(m, b),
    ensures
        m.wire() == b,
{
    lemma_auto_spec_u32_to_from_le_bytes();
    assert(m.header.wire() =~= b.subrange(0, ADDRESS_HEADER_LEN as int));
    let rest = b.skip(ADDRESS_HEADER_LEN as int);
    crate::nla::lemma_nla_run_round_trip(rest);
    let items = nla_run_items(rest);
    assert forall|i: int| 0 <= i < m.nlas@.len() implies (#[trigger] m.nlas@[i]).wire()
        == nla_wire(items[i].0, items[i].1) by {
        assert(m.nlas@.map_values(|d: DefaultNla| (d.kind, d.value@))[i] == items[i]);
    }
    assert(m.nlas@.map_values(|d: DefaultNla| d.wire()) =~= items.map_values(
        |it: (u16, Seq<u8>)| nla_wire(it.0, it.1),
    ));
    assert(m.wire() =~= b);
}

/// A buffer holding the payload of an address message: the fixed header
/// followed by an attribute run.
#[derive(Debug, PartialEq, Eq, Clone)]
pub struct AddressBuffer {
    /// The payload bytes.
    pub buffer: Vec<u8>,
}

impl AddressBuffer {
    /// Wrap the given payload bytes; no check is performed.
    pub fn new(buffer: Vec<u8>) -> (r: AddressBuffer)
        ensures
            r.buffer == buffer,
    {
        AddressBuffer { buffer }
    }

    /// Decodes a whole address message.
    ///
    /// Succeeds exactly when the fixed header is present and the attribute
    /// run decodes; a message parsed from a payload in emitted form
    /// re-emits byte for byte.
    pub fn parse(&self) -> (r: Result<AddressMessage, Error>)
        ensures
            r is Ok <==> address_payload_ok(self.buffer@),
            r matches Ok(m) ==> address_message_parsed(m, self.buffer@) && (
            address_payload_canonical(self.buffer@) ==> m.wire() == self.buffer@),
            r matches Err(e) ==> !address_payload_ok(self.buffer@) && (e is Truncated <==> (
            self.buffer@.len() < ADDRESS_HEADER_LEN || nla_run_error_truncated(
                self.buffer@.skip(ADDRESS_HEADER_LEN as int),
            ))) && (e is Truncated || e is Malformed),
    {
        let b: &[u8] = self.buffer.as_slice();
        let n: usize = b.len();
        if n < ADDRESS_HEADER_LEN {
            return Err(Error::Truncated);
        }
        let header = AddressHeader::parse(b);
        let rest: &[u8] = slice_subrange(b, ADDRESS_HEADER_LEN, n);
        proof {
            assert(rest@ =~= self.buffer@.skip(ADDRESS_HEADER_LEN as int));
        }
        let nlas: Vec<DefaultNla> = match parse_nlas(rest) {
            Ok(nlas) => nlas,
            Err(e) => {
                return Err(e);
            },
        };
        let m = AddressMessage { header, nlas };
        proof {
            if address_payload_canonical(self.buffer@) {
                assert(m.wire() =~= self.buffer@);
            }
        }
        Ok(m)
    }
}

} // verus!
