//! Netlink attribute (NLA) framing: a single `(length, type, value)`
//! attribute, and runs of attributes with their 4-byte alignment padding.
//!
//! The length field of an attribute counts its 4-byte header plus the value
//! and excludes the padding; a run places each attribute at the next 4-byte
//! boundary.

use vstd::prelude::*;
use vstd::bytes::*;
use vstd::slice::{slice_subrange, slice_to_vec};

use crate::bytes::{align4, align4_usize, lemma_align4, pad4, push_slice, push_u16_le, push_zeros, read_u16_le, zeros};
use crate::constants::{NLA_F_NESTED, NLA_F_NET_BYTEORDER, NLA_TYPE_MASK};
use crate::errors::Error;

verus! {

/// The bytes of one attribute with the given type field and value: the
/// 16-bit length (header plus value, padding excluded), the 16-bit type,
/// the value, and zero padding up to the next 4-byte boundary.
pub open spec fn nla_wire(kind: u16, value: Seq<u8>) -> Seq<u8> {
    spec_u16_to_le_bytes((4 + value.len()) as u16) + spec_u16_to_le_bytes(kind) + value + zeros(
        pad4(4 + value.len() as int),
    )
}

/// The value of an attribute fits the 16-bit length field.
pub open spec fn nla_value_wf(value: Seq<u8>) -> bool {
    4 + value.len() <= 0xFFFF
}

/// Concatenation of a sequence of wire fragments, with no separators.
pub open spec fn concat_wires(ws: Seq<Seq<u8>>) -> Seq<u8> {
    ws.flatten()
}

/// The chunk a run iteration consumes for an attribute of declared length
/// `len` when `blen` bytes remain: the aligned length, clipped at the end
/// of the run (the final attribute may omit its padding).
pub open spec fn nla_chunk(blen: int, len: int) -> int {
    if align4(len) <= blen {
        align4(len)
    } else {
        blen
    }
}

/// A run of attributes parses without error: each attribute declares a
/// length of at least 4 that lies within the remaining bytes; fewer than 4
/// trailing bytes are ignored.
pub open spec fn nla_run_ok(b: Seq<u8>) -> bool
    decreases b.len(),
{
    if b.len() < 4 {
        true
    } else {
        let len = spec_u16_from_le_bytes(b.subrange(0, 2)) as int;
        if len < 4 || len > b.len() {
            false
        } else {
            nla_run_ok(b.skip(nla_chunk(b.len() as int, len)))
        }
    }
}

/// A run fails by truncation: the first offending attribute declares a
/// length that overruns the remaining bytes (as opposed to a length below
/// 4, which is a malformation).
pub open spec fn nla_run_error_truncated(b: Seq<u8>) -> bool
    decreases b.len(),
{
    if b.len() < 4 {
        false
    } else {
        let len = spec_u16_from_le_bytes(b.subrange(0, 2)) as int;
        if len < 4 {
            false
        } else if len > b.len() {
            true
        } else {
            nla_run_error_truncated(b.skip(nla_chunk(b.len() as int, len)))
        }
    }
}

/// The `(type, value)` pairs of the attributes of a run, in order.
pub open spec fn nla_run_items(b: Seq<u8>) -> Seq<(u16, Seq<u8>)>
    decreases b.len(),
{
    if b.len() < 4 {
        Seq::<(u16, Seq<u8>)>::empty()
    } else {
        let len = spec_u16_from_le_bytes(b.subrange(0, 2)) as int;
        if len < 4 || len > b.len() {
            Seq::<(u16, Seq<u8>)>::empty()
        } else {
            seq![(spec_u16_from_le_bytes(b.subrange(2, 4)), b.subrange(4, len))] + nla_run_items(
                b.skip(nla_chunk(b.len() as int, len)),
            )
        }
    }
}

/// A run is in emitted form: every attribute, the last included, is padded
/// with zero bytes to the next 4-byte boundary, and nothing follows the
/// last attribute.
pub open spec fn nla_run_canonical(b: Seq<u8>) -> bool
    decreases b.len(),
{
    if b.len() == 0 {
        true
    } else if b.len() < 4 {
        false
    } else {
        let len = spec_u16_from_le_bytes(b.subrange(0, 2)) as int;
        if len < 4 || align4(len) > b.len() {
            false
        } else {
            b.subrange(len, align4(len)) == zeros(pad4(len)) && nla_run_canonical(
                b.skip(align4(len)),
            )
        }
    }
}

/// An attribute in its own storage, wrapping the bytes of a single
/// `(length, type, value)` element.
#[derive(Debug, PartialEq, Eq, Clone)]
pub struct NlaBuffer {
    /// The attribute's bytes: header, value and padding.
    pub buffer: Vec<u8>,
}

impl NlaBuffer {
    /// The declared length: header plus value, padding excluded.
    pub open spec fn spec_length(self) -> u16 {
        spec_u16_from_le_bytes(self.buffer@.subrange(0, 2))
    }

    /// The raw 16-bit type field, flag bits included.
    pub open spec fn spec_kind_raw(self) -> u16 {
        spec_u16_from_le_bytes(self.buffer@.subrange(2, 4))
    }

    /// The value bytes.
    pub open spec fn spec_value(self) -> Seq<u8> {
        self.buffer@.subrange(4, self.spec_length() as int)
    }

    /// The storage holds the header and the declared length lies within it.
    pub open spec fn wf(self) -> bool {
        &&& self.buffer@.len() >= 4
        &&& 4 <= self.spec_length() as int <= self.buffer@.len()
    }

    /// Wrap the given attribute bytes; no check is performed.
    pub fn new(buffer: Vec<u8>) -> (r: NlaBuffer)
        ensures
            r.buffer == buffer,
    {
        NlaBuffer { buffer }
    }

    /// Check that the storage covers the declared length, so that
    /// [`NlaBuffer::value`] stays in bounds.
    pub fn check_buffer_length(&self) -> (r: Result<(), Error>)
        ensures
            r is Ok <==> self.wf(),
            r matches Err(e) ==> e is Truncated,
    {
        let blen: usize = self.buffer.len();
        if blen < 4 {
            Err(Error::Truncated)
        } else {
            let declared: u16 = self.length();
            if declared < 4 || blen < declared as usize {
                Err(Error::Truncated)
            } else {
                Ok(())
            }
        }
    }

    /// The raw 16-bit length field.
    pub fn length(&self) -> (r: u16)
        requires
            self.buffer@.len() >= 4,
        ensures
            r == self.spec_length(),
    {
        read_u16_le(self.buffer.as_slice(), 0)
    }

    /// The attribute tag: the type field with the two flag bits masked out.
    pub fn kind(&self) -> (r: u16)
        requires
            self.buffer@.len() >= 4,
        ensures
            r == self.spec_kind_raw() & NLA_TYPE_MASK,
    {
        read_u16_le(self.buffer.as_slice(), 2) & NLA_TYPE_MASK
    }

    /// The raw type field, flag bits included.
    pub fn kind_raw(&self) -> (r: u16)
        requires
            self.buffer@.len() >= 4,
        ensures
            r == self.spec_kind_raw(),
    {
        read_u16_le(self.buffer.as_slice(), 2)
    }

    /// Whether the type field carries `NLA_F_NESTED`.
    pub fn nested(&self) -> (r: bool)
        requires
            self.buffer@.len() >= 4,
        ensures
            r == (self.spec_kind_raw() & NLA_F_NESTED != 0),
    {
        read_u16_le(self.buffer.as_slice(), 2) & NLA_F_NESTED != 0
    }

    /// Whether the type field carries `NLA_F_NET_BYTEORDER`.
    pub fn network_byte_order(&self) -> (r: bool)
        requires
            self.buffer@.len() >= 4,
        ensures
            r == (self.spec_kind_raw() & NLA_F_NET_BYTEORDER != 0),
    {
        read_u16_le(self.buffer.as_slice(), 2) & NLA_F_NET_BYTEORDER != 0
    }

    /// A copy of the value bytes.
    pub fn value(&self) -> (r: Vec<u8>)
        requires
            self.wf(),
        ensures
            r@ == self.spec_value(),
    {
        let end: usize = self.length() as usize;
        slice_to_vec(slice_subrange(self.buffer.as_slice(), 4, end))
    }
}

/// An attribute kept verbatim: the raw type field (flag bits included) and
/// the value bytes. Unknown tags are carried in this form so that they
/// re-emit byte for byte.
#[derive(Debug, PartialEq, Eq, Clone)]
pub struct DefaultNla {
    /// The raw 16-bit type field, flag bits included.
    pub kind: u16,
    /// The value bytes, padding excluded.
    pub value: Vec<u8>,
}

impl DefaultNla {
    /// The value fits the 16-bit length field.
    pub open spec fn wf(self) -> bool {
        nla_value_wf(self.value@)
    }

    /// The bytes this attribute occupies on the wire.
    pub open spec fn wire(self) -> Seq<u8> {
        nla_wire(self.kind, self.value@)
    }

    /// Length of the value.
    pub fn value_len(&self) -> (r: usize)
        ensures
            r == self.value@.len(),
    {
        self.value.len()
    }

    /// The raw type field this attribute emits.
    pub fn kind(&self) -> (r: u16)
        ensures
            r == self.kind,
    {
        self.kind
    }

    /// Appends a copy of the value bytes.
    pub fn emit_value(&self, out: &mut Vec<u8>)
        ensures
            final(out)@ == old(out)@ + self.value@,
    {
        push_slice(out, self.value.as_slice());
    }

    /// The number of bytes this attribute occupies on the wire, padding
    /// included.
    pub fn buffer_len(&self) -> (r: usize)
        requires
            self.wf(),
        ensures
            r == self.wire().len(),
    {
        proof {
            lemma_nla_wire_len(self.kind, self.value@);
        }
        4 + align4_usize(self.value.len())
    }

    /// Appends the wire form of this attribute.
    pub fn emit(&self, out: &mut Vec<u8>)
        requires
            self.wf(),
        ensures
            final(out)@ == old(out)@ + self.wire(),
    {
        emit_nla(self.kind, self.value.as_slice(), out);
    }
}

/// An emitted attribute occupies its aligned length: the 4-byte header and
/// the value, rounded up to the next 4-byte boundary.
pub proof fn lemma_nla_wire_len(kind: u16, value: Seq<u8>)
    requires
        nla_value_wf(value),
    ensures
        nla_wire(kind, value).len() == 4 + align4(value.len() as int),
        nla_wire(kind, value).len() == align4(4 + value.len() as int),
        nla_wire(kind, value).len() % 4 == 0,
{
    lemma_auto_spec_u16_to_from_le_bytes();
    lemma_align4(value.len() as int);
    lemma_align4(4 + value.len() as int);
}

/// The fields that the wire form of an attribute decodes back to.
pub proof fn lemma_nla_wire_fields(kind: u16, value: Seq<u8>)
    requires
        nla_value_wf(value),
    ensures
        spec_u16_from_le_bytes(nla_wire(kind, value).subrange(0, 2)) == 4 + value.len(),
        spec_u16_from_le_bytes(nla_wire(kind, value).subrange(2, 4)) == kind,
        nla_wire(kind, value).subrange(4, 4 + value.len() as int) == value,
{
    lemma_auto_spec_u16_to_from_le_bytes();
    lemma_nla_wire_len(kind, value);
    assert(nla_wire(kind, value).subrange(0, 2) =~= spec_u16_to_le_bytes(
        (4 + value.len()) as u16,
    ));
    assert(nla_wire(kind, value).subrange(2, 4) =~= spec_u16_to_le_bytes(kind));
    assert(nla_wire(kind, value).subrange(4, 4 + value.len() as int) =~= value);
}

/// Appends one attribute: length, type, value, zero padding.
pub fn emit_nla(kind: u16, value: &[u8], out: &mut Vec<u8>)
    requires
        nla_value_wf(value@),
    ensures
        final(out)@ == old(out)@ + nla_wire(kind, value@),
{
    let vlen: usize = value.len();
    push_u16_le(out, (4 + vlen) as u16);
    push_u16_le(out, kind);
    push_slice(out, value);
    let padded: usize = align4_usize(4 + vlen);
    proof {
        lemma_align4(4 + vlen as int);
    }
    push_zeros(out, padded - (4 + vlen));
    proof {
        assert(pad4(4 + value@.len() as int) == padded - (4 + vlen));
        assert(out@ =~= old(out)@ + nla_wire(kind, value@));
    }
}

/// Splits a run of attributes, preserving each verbatim.
///
/// Succeeds exactly when every attribute's declared length is at least 4
/// and lies within the remaining bytes; trailing bytes shorter than an
/// attribute header are ignored. On success the attributes are returned in
/// wire order, and if the run was in emitted form, re-emitting them
/// reproduces it byte for byte.
pub fn parse_nlas(payload: &[u8]) -> (r: Result<Vec<DefaultNla>, Error>)
    ensures
        r is Ok <==> nla_run_ok(payload@),
        r matches Ok(nlas) ==> {
            &&& nlas@.map_values(|d: DefaultNla| (d.kind, d.value@)) == nla_run_items(payload@)
            &&& forall|i: int| 0 <= i < nlas@.len() ==> (#[trigger] nlas@[i]).wf()
            &&& (nla_run_canonical(payload@) ==> concat_wires(
                nlas@.map_values(|d: DefaultNla| d.wire()),
            ) == payload@)
        },
        r matches Err(e) ==> (e is Truncated || e is Malformed) && (e is Truncated
            <==> nla_run_error_truncated(payload@)),
{
    let n: usize = payload.len();
    let mut nlas: Vec<DefaultNla> = Vec::new();
    let mut off: usize = 0;
    proof {
        assert(payload@.skip(0) =~= payload@);
        assert(nlas@.map_values(|d: DefaultNla| (d.kind, d.value@)) =~= Seq::<(u16, Seq<u8>)>::empty());
        assert(Seq::<(u16, Seq<u8>)>::empty() + nla_run_items(payload@) =~= nla_run_items(payload@));
        assert(nlas@.map_values(|d: DefaultNla| d.wire()) =~= Seq::<Seq<u8>>::empty());
        assert(concat_wires(Seq::<Seq<u8>>::empty()) =~= payload@.subrange(0, 0));
    }
    while n - off >= 4
        invariant
            off <= n,
            n == payload@.len(),
            nla_run_ok(payload@) == nla_run_ok(payload@.skip(off as int)),
            nla_run_error_truncated(payload@) == nla_run_error_truncated(
                payload@.skip(off as int),
            ),
            nla_run_items(payload@) == nlas@.map_values(|d: DefaultNla| (d.kind, d.value@))
                + nla_run_items(payload@.skip(off as int)),
            forall|i: int| 0 <= i < nlas@.len() ==> (#[trigger] nlas@[i]).wf(),
            nla_run_canonical(payload@) ==> {
                &&& nla_run_canonical(payload@.skip(off as int))
                &&& concat_wires(nlas@.map_values(|d: DefaultNla| d.wire())) == payload@.subrange(
                    0,
                    off as int,
                )
            },
        decreases n - off,
    {
        let ghost rest0: Seq<u8> = payload@.skip(off as int);
        proof {
            assert(rest0.subrange(0, 2) =~= payload@.subrange(off as int, off as int + 2));
            assert(rest0.subrange(2, 4) =~= payload@.subrange(off as int + 2, off as int + 4));
        }
        let len: usize = read_u16_le(payload, off) as usize;
        let kind: u16 = read_u16_le(payload, off + 2);
        if len < 4 {
            return Err(Error::Malformed);
        }
        if len > n - off {
            return Err(Error::Truncated);
        }
        proof {
            assert(rest0.subrange(4, len as int) =~= payload@.subrange(
                off as int + 4,
                off as int + len as int,
            ));
        }
        let value: Vec<u8> = slice_to_vec(slice_subrange(payload, off + 4, off + len));
        let ghost nlas0: Seq<DefaultNla> = nlas@;
        let d = DefaultNla { kind, value };
        nlas.push(d);
        let aligned: usize = align4_usize(len);
        proof {
            lemma_align4(len as int);
        }
        let chunk: usize = if aligned <= n - off {
            aligned
        } else {
            n - off
        };
        let ghost old_off: int = off as int;
        off = off + chunk;
        proof {
            assert(chunk == nla_chunk(rest0.len() as int, len as int));
            assert(rest0.skip(chunk as int) =~= payload@.skip(off as int));
            assert(nlas@ =~= nlas0 + seq![d]);
            assert(nlas@.map_values(|x: DefaultNla| (x.kind, x.value@)) =~= nlas0.map_values(
                |x: DefaultNla| (x.kind, x.value@),
            ) + seq![(d.kind, d.value@)]);
            assert(nla_run_items(rest0) =~= seq![(d.kind, d.value@)] + nla_run_items(
                payload@.skip(off as int),
            ));
            assert(nla_run_items(payload@) =~= nlas@.map_values(|x: DefaultNla| (x.kind, x.value@))
                + nla_run_items(payload@.skip(off as int)));
            if nla_run_canonical(payload@) {
                lemma_canonical_chunk(payload@, old_off, len as int, d.kind, d.value@);
                assert(d.wire() == nla_wire(d.kind, d.value@));
                assert(nlas@.map_values(|x: DefaultNla| x.wire()) =~= nlas0.map_values(
                    |x: DefaultNla| x.wire(),
                ) + seq![d.wire()]);
                lemma_concat_wires_snoc(nlas0.map_values(|x: DefaultNla| x.wire()), d.wire());
                assert(concat_wires(nlas@.map_values(|x: DefaultNla| x.wire())) =~= payload@.subrange(
                    0,
                    off as int,
                ));
            }
        }
    }
    proof {
        assert(nla_run_ok(payload@.skip(off as int)));
        assert(nla_run_items(payload@.skip(off as int)) =~= Seq::<(u16, Seq<u8>)>::empty());
        assert(nla_run_items(payload@) =~= nlas@.map_values(|d: DefaultNla| (d.kind, d.value@)));
        if nla_run_canonical(payload@) {
            assert(payload@.skip(off as int).len() == 0);
            assert(payload@.subrange(0, off as int) =~= payload@);
        }
    }
    Ok(nlas)
}

/// Emits a run of attributes: their wire forms back to back.
pub fn emit_nlas(nlas: &Vec<DefaultNla>, out: &mut Vec<u8>)
    requires
        forall|i: int| 0 <= i < nlas@.len() ==> (#[trigger] nlas@[i]).wf(),
    ensures
        final(out)@ == old(out)@ + concat_wires(nlas@.map_values(|d: DefaultNla| d.wire())),
{
    let n: usize = nlas.len();
    let mut i: usize = 0;
    while i < n
        invariant
            i <= n,
            n == nlas@.len(),
            forall|k: int| 0 <= k < nlas@.len() ==> (#[trigger] nlas@[k]).wf(),
            out@ == old(out)@ + concat_wires(
                nlas@.subrange(0, i as int).map_values(|d: DefaultNla| d.wire()),
            ),
        decreases n - i,
    {
        let ghost prefix: Seq<DefaultNla> = nlas@.subrange(0, i as int);
        nlas[i].emit(out);
        i = i + 1;
        proof {
            assert(nlas@.subrange(0, i as int) =~= prefix + seq![nlas@[i - 1]]);
            assert(nlas@.subrange(0, i as int).map_values(|d: DefaultNla| d.wire())
                =~= prefix.map_values(|d: DefaultNla| d.wire()) + seq![nlas@[i - 1].wire()]);
            lemma_concat_wires_snoc(prefix.map_values(|d: DefaultNla| d.wire()), nlas@[i - 1].wire());
        }
    }
    proof {
        assert(nlas@.subrange(0, n as int) =~= nlas@);
    }
}

/// The offset at which the `i`-th fragment of a run begins: the total
/// length of the fragments before it.
pub open spec fn run_offset(ws: Seq<Seq<u8>>, i: int) -> int
    decreases i,
{
    if i <= 0 {
        0
    } else {
        run_offset(ws, i - 1) + ws[i - 1].len()
    }
}

proof fn lemma_run_offset_nonneg(ws: Seq<Seq<u8>>, i: int)
    ensures
        run_offset(ws, i) >= 0,
    decreases i,
{
    if i > 0 {
        lemma_run_offset_nonneg(ws, i - 1);
    }
}

proof fn lemma_run_offset_shift(ws: Seq<Seq<u8>>, i: int)
    requires
        1 <= i <= ws.len(),
    ensures
        run_offset(ws, i) == ws[0].len() + run_offset(ws.drop_first(), i - 1),
    decreases i,
{
    if i == 1 {
        assert(run_offset(ws, 1) == run_offset(ws, 0) + ws[0].len());
        assert(run_offset(ws.drop_first(), 0) == 0);
    } else {
        lemma_run_offset_shift(ws, i - 1);
        assert(ws.drop_first()[i - 2] == ws[i - 1]);
        assert(run_offset(ws, i) == run_offset(ws, i - 1) + ws[i - 1].len());
        assert(run_offset(ws.drop_first(), i - 1) == run_offset(ws.drop_first(), i - 2)
            + ws.drop_first()[i - 2].len());
    }
}

/// A run that parses is not truncated: the truncation predicate marks
/// failing runs only.
pub proof fn lemma_run_ok_not_truncated(b: Seq<u8>)
    requires
        nla_run_ok(b),
    ensures
        !nla_run_error_truncated(b),
    decreases b.len(),
{
    if b.len() >= 4 {
        let len = spec_u16_from_le_bytes(b.subrange(0, 2)) as int;
        if 4 <= len <= b.len() {
            lemma_run_ok_not_truncated(b.skip(nla_chunk(b.len() as int, len)));
        }
    }
}

/// The offset of the `i`-th fragment, plus what remains from it on, makes
/// the whole run: offsets never pass the end of the run.
pub proof fn lemma_run_offset_concat(ws: Seq<Seq<u8>>, i: int)
    requires
        0 <= i <= ws.len(),
    ensures
        run_offset(ws, i) + concat_wires(ws.skip(i)).len() == concat_wires(ws).len(),
        0 <= run_offset(ws, i),
    decreases i,
{
    if i == 0 {
        assert(ws.skip(0) =~= ws);
    } else {
        let rest = ws.drop_first();
        assert(ws.flatten() == ws.first() + rest.flatten());
        lemma_run_offset_shift(ws, i);
        lemma_run_offset_concat(rest, i - 1);
        assert(ws.skip(i) =~= rest.skip(i - 1));
    }
}

/// Alignment of an emitted run: when every fragment's length is a multiple
/// of 4 (as the wire form of an attribute always is), the `i`-th fragment
/// begins at a 4-byte-aligned offset of the run, and occupies exactly its
/// own bytes there.
pub proof fn lemma_run_alignment(ws: Seq<Seq<u8>>, i: int)
    requires
        forall|k: int| 0 <= k < ws.len() ==> (#[trigger] ws[k]).len() % 4 == 0,
        0 <= i < ws.len(),
    ensures
        run_offset(ws, i) % 4 == 0,
        run_offset(ws, i) + ws[i].len() <= concat_wires(ws).len(),
        concat_wires(ws).subrange(run_offset(ws, i), run_offset(ws, i) + ws[i].len()) == ws[i],
    decreases i,
{
    assert(ws.flatten() == ws.first() + ws.drop_first().flatten());
    assert(ws.first() == ws[0]);
    let rest = ws.drop_first();
    if i == 0 {
        assert(concat_wires(ws).subrange(0, ws[0].len() as int) =~= ws[0]);
    } else {
        assert(forall|k: int| 0 <= k < rest.len() ==> (#[trigger] rest[k]).len() % 4 == 0) by {
            assert(forall|k: int| 0 <= k < rest.len() ==> rest[k] == ws[k + 1]);
        }
        lemma_run_alignment(rest, i - 1);
        lemma_run_offset_shift(ws, i);
        lemma_run_offset_nonneg(rest, i - 1);
        assert(rest[i - 1] == ws[i]);
        let off = run_offset(ws, i);
        let off_rest = run_offset(rest, i - 1);
        assert(off == ws[0].len() + off_rest);
        assert(concat_wires(ws).len() == ws[0].len() + concat_wires(rest).len());
        assert(off_rest + ws[i].len() <= concat_wires(rest).len());
        assert(off + ws[i].len() <= concat_wires(ws).len());
        assert(concat_wires(ws).subrange(off, off + ws[i].len()) =~= concat_wires(rest).subrange(
            off_rest,
            off_rest + ws[i].len(),
        ));
    }
}

/// Every attribute of an emitted attribute run begins at a 4-byte-aligned
/// offset within the run, and the bytes there are exactly its own wire
/// form.
pub proof fn lemma_nla_run_alignment(nlas: Seq<DefaultNla>, i: int)
    requires
        forall|k: int| 0 <= k < nlas.len() ==> (#[trigger] nlas[k]).wf(),
        0 <= i < nlas.len(),
    ensures
        run_offset(nlas.map_values(|d: DefaultNla| d.wire()), i) % 4 == 0,
        concat_wires(nlas.map_values(|d: DefaultNla| d.wire())).subrange(
            run_offset(nlas.map_values(|d: DefaultNla| d.wire()), i),
            run_offset(nlas.map_values(|d: DefaultNla| d.wire()), i) + nlas[i].wire().len(),
        ) == nlas[i].wire(),
{
    let ws = nlas.map_values(|d: DefaultNla| d.wire());
    assert(forall|k: int| 0 <= k < ws.len() ==> (#[trigger] ws[k]).len() % 4 == 0) by {
        assert forall|k: int| 0 <= k < ws.len() implies (#[trigger] ws[k]).len() % 4 == 0 by {
            lemma_nla_wire_len(nlas[k].kind, nlas[k].value@);
        }
    }
    lemma_run_alignment(ws, i);
}

/// Concatenation over a run extended by one fragment.
pub proof fn lemma_concat_wires_snoc(ws: Seq<Seq<u8>>, w: Seq<u8>)
    ensures
        concat_wires(ws + seq![w]) == concat_wires(ws) + w,
{
    assert(ws + seq![w] =~= ws.push(w));
    ws.lemma_flatten_push(w);
}

/// One canonical step of a run: the attribute parsed at `off` re-emits as
/// exactly the chunk it was read from.
proof fn lemma_canonical_chunk(b: Seq<u8>, off: int, len: int, kind: u16, value: Seq<u8>)
    requires
        0 <= off,
        off + 4 <= b.len(),
        nla_run_canonical(b.skip(off)),
        4 <= len,
        off + len <= b.len(),
        len == spec_u16_from_le_bytes(b.subrange(off, off + 2)) as int,
        kind == spec_u16_from_le_bytes(b.subrange(off + 2, off + 4)),
        value == b.subrange(off + 4, off + len),
    ensures
        off + align4(len) <= b.len(),
        nla_wire(kind, value) == b.subrange(off, off + align4(len)),
        nla_run_canonical(b.skip(off + align4(len))),
{
    let rest = b.skip(off);
    let w = nla_wire(kind, value);
    lemma_align4(len);
    assert(rest.subrange(0, 2) =~= b.subrange(off, off + 2));
    assert(align4(len) <= rest.len());
    assert(off + align4(len) <= b.len());
    lemma_auto_spec_u16_to_from_le_bytes();
    assert(w.len() == align4(len)) by {
        lemma_nla_wire_len(kind, value);
    }
    assert(rest.subrange(len, align4(len)) == zeros(pad4(len)));
    assert forall|j: int| 0 <= j < align4(len) implies w[j] == b[off + j] by {
        lemma_nla_wire_len(kind, value);
        if j < 2 {
            assert(w[j] == spec_u16_to_le_bytes((4 + value.len()) as u16)[j]);
            assert(spec_u16_to_le_bytes((4 + value.len()) as u16) == b.subrange(off, off + 2));
        } else if j < 4 {
            assert(w[j] == spec_u16_to_le_bytes(kind)[j - 2]);
            assert(spec_u16_to_le_bytes(kind) == b.subrange(off + 2, off + 4));
        } else if j < len {
            assert(w[j] == value[j - 4]);
        } else {
            assert(w[j] == zeros(pad4(len))[j - len]);
            assert(rest.subrange(len, align4(len))[j - len] == b[off + j]);
        }
    }
    assert(w =~= b.subrange(off, off + align4(len)));
    assert(rest.skip(align4(len)) =~= b.skip(off + align4(len)));
}

/// Round trip of a raw attribute run: a run in emitted form is exactly
/// the concatenation of the wire forms of its own attributes, and each of
/// their values fits its length field.
pub proof fn lemma_nla_run_round_trip(b: Seq<u8>)
    requires
        nla_run_ok(b),
        nla_run_canonical(b),
    ensures
        concat_wires(nla_run_items(b).map_values(|it: (u16, Seq<u8>)| nla_wire(it.0, it.1))) == b,
        forall|i: int|
            0 <= i < nla_run_items(b).len() ==> nla_value_wf((#[trigger] nla_run_items(b)[i]).1),
    decreases b.len(),
{
    let items = nla_run_items(b);
    let ws = items.map_values(|it: (u16, Seq<u8>)| nla_wire(it.0, it.1));
    if b.len() < 4 {
        assert(b.len() == 0);
        assert(items =~= Seq::<(u16, Seq<u8>)>::empty());
        assert(ws =~= Seq::<Seq<u8>>::empty());
        assert(concat_wires(ws) =~= b);
    } else {
        let len = spec_u16_from_le_bytes(b.subrange(0, 2)) as int;
        let kind = spec_u16_from_le_bytes(b.subrange(2, 4));
        let value = b.subrange(4, len);
        lemma_align4(len);
        assert(align4(len) <= b.len());
        assert(b.skip(0) =~= b);
        lemma_canonical_chunk(b, 0, len, kind, value);
        let rest = b.skip(align4(len));
        assert(nla_chunk(b.len() as int, len) == align4(len));
        assert(nla_run_ok(rest));
        lemma_nla_run_round_trip(rest);
        let rest_items = nla_run_items(rest);
        assert(items =~= seq![(kind, value)] + rest_items);
        let rest_ws = rest_items.map_values(|it: (u16, Seq<u8>)| nla_wire(it.0, it.1));
        assert(ws =~= seq![nla_wire(kind, value)] + rest_ws);
        assert(ws.first() == nla_wire(kind, value));
        assert(ws.drop_first() =~= rest_ws);
        assert(ws.flatten() == ws.first() + ws.drop_first().flatten());
        assert(concat_wires(ws) == nla_wire(kind, value) + concat_wires(rest_ws));
        assert(concat_wires(ws) =~= b);
        assert forall|i: int| 0 <= i < items.len() implies nla_value_wf(
            (#[trigger] items[i]).1,
        ) by {
            if i == 0 {
            } else {
                assert(items[i] == rest_items[i - 1]);
            }
        }
    }
}

} // verus!
