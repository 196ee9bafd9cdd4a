//! The rtnetlink neighbour family: the fixed `ndmsg` header, the typed
//! neighbour attributes, and whole neighbour messages.

use vstd::prelude::*;
use vstd::bytes::*;
use vstd::slice::{slice_subrange, slice_to_vec};

use crate::bytes::{push_u16_le, push_u32_le, push_zeros, read_u16_le, read_u32_le, zeros};
use crate::constants::{
    NDA_CACHEINFO, NDA_DST, NDA_IFINDEX, NDA_LINK_NETNSID, NDA_LLADDR, NDA_MASTER, NDA_PORT,
    NDA_PROBES, NDA_SRC_VNI, NDA_UNSPEC, NDA_VLAN, NDA_VNI, NEIGHBOUR_HEADER_LEN, NLA_TYPE_MASK,
};
use crate::errors::Error;
use crate::nla::{
    concat_wires, emit_nla, lemma_concat_wires_snoc, lemma_nla_wire_len, lemma_run_offset_concat,
    nla_run_canonical, nla_run_error_truncated, nla_run_items, nla_run_ok, nla_value_wf, nla_wire,
    parse_nlas, run_offset, DefaultNla,
};

verus! {

/// The fixed rtnetlink neighbour header (`ndmsg`): 12 bytes, of which
/// three are reserved padding after the address family.
#[derive(Debug, PartialEq, Eq, Clone, Copy, Hash, Default, Structural)]
pub struct NeighbourHeader {
    /// Address family of the neighbour entry.
    pub family: u8,
    /// Interface index.
    pub ifindex: i32,
    /// Neighbour cache entry state (`NUD_*` bits).
    pub state: u16,
    /// Neighbour entry flags (`NTF_*` bits).
    pub flags: u8,
    /// Neighbour entry type.
    pub ntype: u8,
}

impl NeighbourHeader {
    /// The 12 bytes this header occupies on the wire; the three reserved
    /// bytes are written as zero.
    pub open spec fn wire(self) -> Seq<u8> {
        seq![self.family] + zeros(3) + spec_u32_to_le_bytes(self.ifindex as u32)
            + spec_u16_to_le_bytes(self.state) + seq![self.flags, self.ntype]
    }

    /// The number of bytes this header occupies on the wire.
    pub fn buffer_len(&self) -> (r: usize)
        ensures
            r == self.wire().len(),
            r == NEIGHBOUR_HEADER_LEN,
    {
        proof {
            lemma_neighbour_header_wire_len(*self);
        }
        NEIGHBOUR_HEADER_LEN
    }

    /// Appends the wire form of this header.
    pub fn emit(&self, out: &mut Vec<u8>)
        ensures
            final(out)@ == old(out)@ + self.wire(),
    {
        out.push(self.family);
        push_zeros(out, 3);
        push_u32_le(out, self.ifindex as u32);
        push_u16_le(out, self.state);
        out.push(self.flags);
        out.push(self.ntype);
        proof {
            assert(out@ =~= old(out)@ + self.wire());
        }
    }

    /// Decodes the fixed header from the first 12 bytes; the reserved
    /// bytes are ignored.
    pub fn parse(payload: &[u8]) -> (r: NeighbourHeader)
        requires
            payload@.len() >= NEIGHBOUR_HEADER_LEN,
        ensures
            r.family == payload@[0],
            r.ifindex as u32 == spec_u32_from_le_bytes(payload@.subrange(4, 8)),
            r.state == spec_u16_from_le_bytes(payload@.subrange(8, 10)),
            r.flags == payload@[10],
            r.ntype == payload@[11],
            payload@.subrange(1, 4) == zeros(3) ==> r.wire() == payload@.subrange(
                0,
                NEIGHBOUR_HEADER_LEN as int,
            ),
    {
        let ifindex_bits: u32 = read_u32_le(payload, 4);
        let ifindex: i32 = ifindex_bits as i32;
        let r = NeighbourHeader {
            family: payload[0],
            ifindex,
            state: read_u16_le(payload, 8),
            flags: payload[10],
            ntype: payload[11],
        };
        proof {
            lemma_auto_spec_u16_to_from_le_bytes();
            lemma_auto_spec_u32_to_from_le_bytes();
            assert(ifindex as u32 == ifindex_bits) by (bit_vector)
                requires
                    ifindex == ifindex_bits as i32,
            ;
            if payload@.subrange(1, 4) == zeros(3) {
                assert(r.wire() =~= payload@.subrange(0, NEIGHBOUR_HEADER_LEN as int));
            }
        }
        r
    }
}

/// The wire form of a neighbour header is always exactly 12 bytes.
pub proof fn lemma_neighbour_header_wire_len(h: NeighbourHeader)
    ensures
        h.wire().len() == NEIGHBOUR_HEADER_LEN,
{
    lemma_auto_spec_u16_to_from_le_bytes();
    lemma_auto_spec_u32_to_from_le_bytes();
}

/// The `nda_cacheinfo` struct carried by `NDA_CACHEINFO`: four 32-bit
/// counters, read and written field by field in wire order.
#[derive(Debug, PartialEq, Eq, Clone, Copy, Hash, Default, Structural)]
pub struct NeighbourCacheInfo {
    pub ndm_confirmed: u32,
    pub ndm_used: u32,
    pub ndm_updated: u32,
    pub ndm_refcnt: u32,
}

impl NeighbourCacheInfo {
    /// The 16 bytes this struct occupies on the wire.
    pub open spec fn wire(self) -> Seq<u8> {
        spec_u32_to_le_bytes(self.ndm_confirmed) + spec_u32_to_le_bytes(self.ndm_used)
            + spec_u32_to_le_bytes(self.ndm_updated) + spec_u32_to_le_bytes(self.ndm_refcnt)
    }

    /// Appends the wire form of this struct.
    pub fn emit(&self, out: &mut Vec<u8>)
        ensures
            final(out)@ == old(out)@ + self.wire(),
    {
        push_u32_le(out, self.ndm_confirmed);
        push_u32_le(out, self.ndm_used);
        push_u32_le(out, self.ndm_updated);
        push_u32_le(out, self.ndm_refcnt);
        proof {
            assert(out@ =~= old(out)@ + self.wire());
        }
    }

    /// Decodes the struct from an attribute value; a value of any other
    /// width than 16 bytes is a malformation.
    pub fn from_bytes(value: &[u8]) -> (r: Result<NeighbourCacheInfo, Error>)
        ensures
            r is Ok <==> value@.len() == 16,
            r matches Ok(ci) ==> ci.wire() == value@,
            r matches Err(e) ==> e is Malformed,
    {
        if value.len() != 16 {
            return Err(Error::Malformed);
        }
        let ci = NeighbourCacheInfo {
            ndm_confirmed: read_u32_le(value, 0),
            ndm_used: read_u32_le(value, 4),
            ndm_updated: read_u32_le(value, 8),
            ndm_refcnt: read_u32_le(value, 12),
        };
        proof {
            lemma_auto_spec_u32_to_from_le_bytes();
            assert(ci.wire() =~= value@);
        }
        Ok(ci)
    }
}

/// A typed neighbour attribute. Unknown tags are preserved verbatim in
/// [`NeighbourNla::Other`].
#[derive(Debug, PartialEq, Eq, Clone)]
pub enum NeighbourNla {
    Unspec(Vec<u8>),
    Destination(Vec<u8>),
    LinkLocalAddress(Vec<u8>),
    CacheInfo(NeighbourCacheInfo),
    Probes(Vec<u8>),
    VLAN(u16),
    Port(Vec<u8>),
    VNI(u32),
    IfIndex(u32),
    Master(Vec<u8>),
    LinkNetNSID(Vec<u8>),
    SourceVNI(u32),
    Other(DefaultNla),
}

impl NeighbourNla {
    /// The type field this attribute emits.
    pub open spec fn spec_kind(self) -> u16 {
        match self {
            NeighbourNla::Unspec(_) => NDA_UNSPEC,
            NeighbourNla::Destination(_) => NDA_DST,
            NeighbourNla::LinkLocalAddress(_) => NDA_LLADDR,
            NeighbourNla::CacheInfo(_) => NDA_CACHEINFO,
            NeighbourNla::Probes(_) => NDA_PROBES,
            NeighbourNla::VLAN(_) => NDA_VLAN,
            NeighbourNla::Port(_) => NDA_PORT,
            NeighbourNla::VNI(_) => NDA_VNI,
            NeighbourNla::IfIndex(_) => NDA_IFINDEX,
            NeighbourNla::Master(_) => NDA_MASTER,
            NeighbourNla::LinkNetNSID(_) => NDA_LINK_NETNSID,
            NeighbourNla::SourceVNI(_) => NDA_SRC_VNI,
            NeighbourNla::Other(d) => d.kind,
        }
    }

    /// The value bytes this attribute emits.
    pub open spec fn value_wire(self) -> Seq<u8> {
        match self {
            NeighbourNla::Unspec(v) => v@,
            NeighbourNla::Destination(v) => v@,
            NeighbourNla::LinkLocalAddress(v) => v@,
            NeighbourNla::CacheInfo(ci) => ci.wire(),
            NeighbourNla::Probes(v) => v@,
            NeighbourNla::VLAN(x) => spec_u16_to_le_bytes(x),
            NeighbourNla::Port(v) => v@,
            NeighbourNla::VNI(x) => spec_u32_to_le_bytes(x),
            NeighbourNla::IfIndex(x) => spec_u32_to_le_bytes(x),
            NeighbourNla::Master(v) => v@,
            NeighbourNla::LinkNetNSID(v) => v@,
            NeighbourNla::SourceVNI(x) => spec_u32_to_le_bytes(x),
            NeighbourNla::Other(d) => d.value@,
        }
    }

    /// The bytes this attribute occupies on the wire.
    pub open spec fn wire(self) -> Seq<u8> {
        nla_wire(self.spec_kind(), self.value_wire())
    }

    /// The value fits the attribute's 16-bit length field.
    pub open spec fn wf(self) -> bool {
        nla_value_wf(self.value_wire())
    }

    /// Length of the value this attribute emits.
    pub fn value_len(&self) -> (r: usize)
        ensures
            r == self.value_wire().len(),
    {
        proof {
            lemma_auto_spec_u16_to_from_le_bytes();
            lemma_auto_spec_u32_to_from_le_bytes();
        }
        match self {
            NeighbourNla::Unspec(v) => v.len(),
            NeighbourNla::Destination(v) => v.len(),
            NeighbourNla::LinkLocalAddress(v) => v.len(),
            NeighbourNla::CacheInfo(_) => 16,
            NeighbourNla::Probes(v) => v.len(),
            NeighbourNla::VLAN(_) => 2,
            NeighbourNla::Port(v) => v.len(),
            NeighbourNla::VNI(_) => 4,
            NeighbourNla::IfIndex(_) => 4,
            NeighbourNla::Master(v) => v.len(),
            NeighbourNla::LinkNetNSID(v) => v.len(),
            NeighbourNla::SourceVNI(_) => 4,
            NeighbourNla::Other(d) => d.value_len(),
        }
    }

    /// The type field this attribute emits.
    pub fn kind(&self) -> (r: u16)
        ensures
            r == self.spec_kind(),
    {
        match self {
            NeighbourNla::Unspec(_) => NDA_UNSPEC,
            NeighbourNla::Destination(_) => NDA_DST,
            NeighbourNla::LinkLocalAddress(_) => NDA_LLADDR,
            NeighbourNla::CacheInfo(_) => NDA_CACHEINFO,
            NeighbourNla::Probes(_) => NDA_PROBES,
            NeighbourNla::VLAN(_) => NDA_VLAN,
            NeighbourNla::Port(_) => NDA_PORT,
            NeighbourNla::VNI(_) => NDA_VNI,
            NeighbourNla::IfIndex(_) => NDA_IFINDEX,
            NeighbourNla::Master(_) => NDA_MASTER,
            NeighbourNla::LinkNetNSID(_) => NDA_LINK_NETNSID,
            NeighbourNla::SourceVNI(_) => NDA_SRC_VNI,
            NeighbourNla::Other(d) => d.kind(),
        }
    }

    /// Appends the value bytes of this attribute.
    pub fn emit_value(&self, out: &mut Vec<u8>)
        ensures
            final(out)@ == old(out)@ + self.value_wire(),
    {
        match self {
            NeighbourNla::Unspec(v) => crate::bytes::push_slice(out, v.as_slice()),
            NeighbourNla::Destination(v) => crate::bytes::push_slice(out, v.as_slice()),
            NeighbourNla::LinkLocalAddress(v) => crate::bytes::push_slice(out, v.as_slice()),
            NeighbourNla::CacheInfo(ci) => ci.emit(out),
            NeighbourNla::Probes(v) => crate::bytes::push_slice(out, v.as_slice()),
            NeighbourNla::VLAN(x) => push_u16_le(out, *x),
            NeighbourNla::Port(v) => crate::bytes::push_slice(out, v.as_slice()),
            NeighbourNla::VNI(x) => push_u32_le(out, *x),
            NeighbourNla::IfIndex(x) => push_u32_le(out, *x),
            NeighbourNla::Master(v) => crate::bytes::push_slice(out, v.as_slice()),
            NeighbourNla::LinkNetNSID(v) => crate::bytes::push_slice(out, v.as_slice()),
            NeighbourNla::SourceVNI(x) => push_u32_le(out, *x),
            NeighbourNla::Other(d) => d.emit_value(out),
        }
    }

    /// The number of bytes this attribute occupies on the wire, padding
    /// included.
    pub fn buffer_len(&self) -> (r: usize)
        requires
            self.wf(),
        ensures
            r == self.wire().len(),
    {
        proof {
            lemma_nla_wire_len(self.spec_kind(), self.value_wire());
        }
        4 + crate::bytes::align4_usize(self.value_len())
    }

    /// Appends the wire form of this attribute.
    pub fn emit(&self, out: &mut Vec<u8>)
        requires
            self.wf(),
        ensures
            final(out)@ == old(out)@ + self.wire(),
    {
        let mut value: Vec<u8> = Vec::new();
        self.emit_value(&mut value);
        emit_nla(self.kind(), value.as_slice(), out);
    }
}

/// The widths under which a neighbour attribute value decodes: the fixed
/// struct must be 16 bytes, the 16-bit integers 2, the 32-bit ones 4;
/// byte-string and unknown tags take any value.
pub open spec fn neighbour_parse_ok(kind: u16, value: Seq<u8>) -> bool {
    let tag = kind & NLA_TYPE_MASK;
    if tag == NDA_CACHEINFO {
        value.len() == 16
    } else if tag == NDA_VLAN {
        value.len() == 2
    } else if tag == NDA_VNI || tag == NDA_IFINDEX || tag == NDA_SRC_VNI {
        value.len() == 4
    } else {
        true
    }
}

/// How a typed neighbour attribute relates to the `(type, value)` pair it
/// was decoded from.
pub open spec fn neighbour_nla_matches(n: NeighbourNla, kind: u16, value: Seq<u8>) -> bool {
    let tag = kind & NLA_TYPE_MASK;
    if tag == NDA_UNSPEC {
        n matches NeighbourNla::Unspec(v) && v@ == value
    } else if tag == NDA_DST {
        n matches NeighbourNla::Destination(v) && v@ == value
    } else if tag == NDA_LLADDR {
        n matches NeighbourNla::LinkLocalAddress(v) && v@ == value
    } else if tag == NDA_CACHEINFO {
        n matches NeighbourNla::CacheInfo(ci) && ci.wire() == value
    } else if tag == NDA_PROBES {
        n matches NeighbourNla::Probes(v) && v@ == value
    } else if tag == NDA_VLAN {
        n matches NeighbourNla::VLAN(x) && x == spec_u16_from_le_bytes(value)
    } else if tag == NDA_PORT {
        n matches NeighbourNla::Port(v) && v@ == value
    } else if tag == NDA_VNI {
        n matches NeighbourNla::VNI(x) && x == spec_u32_from_le_bytes(value)
    } else if tag == NDA_IFINDEX {
        n matches NeighbourNla::IfIndex(x) && x == spec_u32_from_le_bytes(value)
    } else if tag == NDA_MASTER {
        n matches NeighbourNla::Master(v) && v@ == value
    } else if tag == NDA_LINK_NETNSID {
        n matches NeighbourNla::LinkNetNSID(v) && v@ == value
    } else if tag == NDA_SRC_VNI {
        n matches NeighbourNla::SourceVNI(x) && x == spec_u32_from_le_bytes(value)
    } else {
        n matches NeighbourNla::Other(d) && d.kind == kind && d.value@ == value
    }
}

/// A recognised tag re-emits under its bare tag value, so an attribute
/// whose type field carries flag bits on a recognised tag is not in
/// emitted form.
pub open spec fn neighbour_value_canonical(kind: u16) -> bool {
    (kind & NLA_TYPE_MASK) <= NDA_SRC_VNI ==> kind == (kind & NLA_TYPE_MASK)
}

/// Decodes one neighbour attribute from its type field and value.
fn neighbour_nla_from(kind: u16, value: &[u8]) -> (r: Result<NeighbourNla, Error>)
    requires
        nla_value_wf(value@),
    ensures
        r is Ok <==> neighbour_parse_ok(kind, value@),
        r matches Ok(n) ==> {
            &&& neighbour_nla_matches(n, kind, value@)
            &&& n.wf()
            &&& (neighbour_value_canonical(kind) ==> n.spec_kind() == kind && n.value_wire()
                == value@)
        },
        r matches Err(e) ==> e is Malformed,
{
    proof {
        lemma_auto_spec_u16_to_from_le_bytes();
        lemma_auto_spec_u32_to_from_le_bytes();
    }
    let tag: u16 = kind & NLA_TYPE_MASK;
    if tag == NDA_UNSPEC {
        Ok(NeighbourNla::Unspec(slice_to_vec(value)))
    } else if tag == NDA_DST {
        Ok(NeighbourNla::Destination(slice_to_vec(value)))
    } else if tag == NDA_LLADDR {
        Ok(NeighbourNla::LinkLocalAddress(slice_to_vec(value)))
    } else if tag == NDA_CACHEINFO {
        match NeighbourCacheInfo::from_bytes(value) {
            Ok(ci) => Ok(NeighbourNla::CacheInfo(ci)),
            Err(e) => Err(e),
        }
    } else if tag == NDA_PROBES {
        Ok(NeighbourNla::Probes(slice_to_vec(value)))
    } else if tag == NDA_VLAN {
        if value.len() == 2 {
            proof {
                assert(value@.subrange(0, 2) =~= value@);
            }
            Ok(NeighbourNla::VLAN(read_u16_le(value, 0)))
        } else {
            Err(Error::Malformed)
        }
    } else if tag == NDA_PORT {
        Ok(NeighbourNla::Port(slice_to_vec(value)))
    } else if tag == NDA_VNI {
        if value.len() == 4 {
            proof {
                assert(value@.subrange(0, 4) =~= value@);
            }
            Ok(NeighbourNla::VNI(read_u32_le(value, 0)))
        } else {
            Err(Error::Malformed)
        }
    } else if tag == NDA_IFINDEX {
        if value.len() == 4 {
            proof {
                assert(value@.subrange(0, 4) =~= value@);
            }
            Ok(NeighbourNla::IfIndex(read_u32_le(value, 0)))
        } else {
            Err(Error::Malformed)
        }
    } else if tag == NDA_MASTER {
        Ok(NeighbourNla::Master(slice_to_vec(value)))
    } else if tag == NDA_LINK_NETNSID {
        Ok(NeighbourNla::LinkNetNSID(slice_to_vec(value)))
    } else if tag == NDA_SRC_VNI {
        if value.len() == 4 {
            proof {
                assert(value@.subrange(0, 4) =~= value@);
            }
            Ok(NeighbourNla::SourceVNI(read_u32_le(value, 0)))
        } else {
            Err(Error::Malformed)
        }
    } else {
        Ok(NeighbourNla::Other(DefaultNla { kind, value: slice_to_vec(value) }))
    }
}

impl crate::nla::NlaBuffer {
    /// Decodes this attribute as a typed neighbour attribute.
    pub fn parse_neighbour(&self) -> (r: Result<NeighbourNla, Error>)
        requires
            self.wf(),
        ensures
            r is Ok <==> neighbour_parse_ok(self.spec_kind_raw(), self.spec_value()),
            r matches Ok(n) ==> neighbour_nla_matches(n, self.spec_kind_raw(), self.spec_value())
                && n.wf(),
            r matches Err(e) ==> e is Malformed,
    {
        let value: Vec<u8> = self.value();
        neighbour_nla_from(self.kind_raw(), value.as_slice())
    }
}

/// A whole neighbour message: the fixed header followed by its attributes.
#[derive(Debug, PartialEq, Eq, Clone)]
pub struct NeighbourMessage {
    pub header: NeighbourHeader,
    pub nlas: Vec<NeighbourNla>,
}

/// A neighbour message's payload decodes: the fixed header is present and
/// the attribute run and every attribute value are well formed.
pub open spec fn neighbour_payload_ok(b: Seq<u8>) -> bool {
    &&& b.len() >= NEIGHBOUR_HEADER_LEN
    &&& nla_run_ok(b.skip(NEIGHBOUR_HEADER_LEN as int))
    &&& forall|i: int|
        0 <= i < nla_run_items(b.skip(NEIGHBOUR_HEADER_LEN as int)).len()
            ==> neighbour_parse_ok(
            (#[trigger] nla_run_items(b.skip(NEIGHBOUR_HEADER_LEN as int))[i]).0,
            nla_run_items(b.skip(NEIGHBOUR_HEADER_LEN as int))[i].1,
        )
}

/// A neighbour message's payload is in emitted form: reserved header bytes
/// zero, the attribute run padded canonically, and no recognised tag
/// carrying flag bits.
pub open spec fn neighbour_payload_canonical(b: Seq<u8>) -> bool {
    &&& b.len() >= NEIGHBOUR_HEADER_LEN
    &&& b.subrange(1, 4) == zeros(3)
    &&& nla_run_canonical(b.skip(NEIGHBOUR_HEADER_LEN as int))
    &&& forall|i: int|
        0 <= i < nla_run_items(b.skip(NEIGHBOUR_HEADER_LEN as int)).len()
            ==> neighbour_value_canonical(
            (#[trigger] nla_run_items(b.skip(NEIGHBOUR_HEADER_LEN as int))[i]).0,
        )
}

/// How a decoded neighbour message relates to the payload it was decoded
/// from: the header fields are the reads of the fixed header, and each
/// typed attribute matches its `(type, value)` pair of the run.
pub open spec fn neighbour_message_parsed(m: NeighbourMessage, b: Seq<u8>) -> bool {
    &&& b.len() >= NEIGHBOUR_HEADER_LEN
    &&& m.header.family == b[0]
    &&& m.header.ifindex as u32 == spec_u32_from_le_bytes(b.subrange(4, 8))
    &&& m.header.state == spec_u16_from_le_bytes(b.subrange(8, 10))
    &&& m.header.flags == b[10]
    &&& m.header.ntype == b[11]
    &&& m.wf()
    &&& m.nlas@.len() == nla_run_items(b.skip(NEIGHBOUR_HEADER_LEN as int)).len()
    &&& forall|i: int|
        0 <= i < m.nlas@.len() ==> neighbour_nla_matches(
            #[trigger] m.nlas@[i],
            nla_run_items(b.skip(NEIGHBOUR_HEADER_LEN as int))[i].0,
            nla_run_items(b.skip(NEIGHBOUR_HEADER_LEN as int))[i].1,
        )
}

impl NeighbourMessage {
    /// The bytes this message occupies on the wire: the fixed header, then
    /// the attributes back to back.
    pub open spec fn wire(self) -> Seq<u8> {
        self.header.wire() + concat_wires(self.nlas@.map_values(|n: NeighbourNla| n.wire()))
    }

    /// Every attribute value fits its length field.
    pub open spec fn wf(self) -> bool {
        forall|i: int| 0 <= i < self.nlas@.len() ==> (#[trigger] self.nlas@[i]).wf()
    }

    /// The number of bytes this message occupies on the wire.
    pub fn buffer_len(&self) -> (r: usize)
        requires
            self.wf(),
            self.wire().len() <= u32::MAX,
        ensures
            r == self.wire().len(),
    {
        let ghost ws: Seq<Seq<u8>> = self.nlas@.map_values(|n: NeighbourNla| n.wire());
        let mut acc: usize = self.header.buffer_len();
        let n: usize = self.nlas.len();
        let mut i: usize = 0;
        proof {
            lemma_run_offset_concat(ws, ws.len() as int);
        }
        while i < n
            invariant
                i <= n,
                n == self.nlas@.len(),
                self.wf(),
                ws == self.nlas@.map_values(|x: NeighbourNla| x.wire()),
                acc == NEIGHBOUR_HEADER_LEN + run_offset(ws, i as int),
                run_offset(ws, ws.len() as int) == concat_wires(ws).len(),
                self.wire().len() == NEIGHBOUR_HEADER_LEN + concat_wires(ws).len(),
                self.wire().len() <= u32::MAX,
            decreases n - i,
        {
            proof {
                lemma_run_offset_concat(ws, i as int);
                lemma_run_offset_concat(ws, i + 1);
                assert(run_offset(ws, i + 1) == run_offset(ws, i as int) + ws[i as int].len());
            }
            acc = acc + self.nlas[i].buffer_len();
            i = i + 1;
        }
        acc
    }

    /// Appends the wire form of this message.
    pub fn emit(&self, out: &mut Vec<u8>)
        requires
            self.wf(),
        ensures
            final(out)@ == old(out)@ + self.wire(),
    {
        let ghost ws: Seq<Seq<u8>> = self.nlas@.map_values(|n: NeighbourNla| n.wire());
        self.header.emit(out);
        let n: usize = self.nlas.len();
        let mut i: usize = 0;
        while i < n
            invariant
                i <= n,
                n == self.nlas@.len(),
                self.wf(),
                ws == self.nlas@.map_values(|x: NeighbourNla| x.wire()),
                out@ == old(out)@ + self.header.wire() + concat_wires(
                    self.nlas@.subrange(0, i as int).map_values(|x: NeighbourNla| x.wire()),
                ),
            decreases n - i,
        {
            let ghost prefix: Seq<NeighbourNla> = self.nlas@.subrange(0, i as int);
            self.nlas[i].emit(out);
            i = i + 1;
            proof {
                assert(self.nlas@.subrange(0, i as int) =~= prefix + seq![self.nlas@[i - 1]]);
                assert(self.nlas@.subrange(0, i as int).map_values(|x: NeighbourNla| x.wire())
                    =~= prefix.map_values(|x: NeighbourNla| x.wire()) + seq![self.nlas@[i
                    - 1].wire()]);
                lemma_concat_wires_snoc(
                    prefix.map_values(|x: NeighbourNla| x.wire()),
                    self.nlas@[i - 1].wire(),
                );
            }
        }
        proof {
            assert(self.nlas@.subrange(0, n as int) =~= self.nlas@);
            assert(out@ =~= old(out)@ + self.wire());
        }
    }
}

/// Round trip of one typed neighbour attribute: decoded from a canonical
/// `(type, value)` pair, it re-emits that pair exactly.
pub proof fn lemma_neighbour_nla_round_trip(n: NeighbourNla, kind: u16, value: Seq<u8>)
    requires
        neighbour_parse_ok(kind, value),
        neighbour_nla_matches(n, kind, value),
        neighbour_value_canonical(kind),
        nla_value_wf(value),
    ensures
        n.spec_kind() == kind,
        n.value_wire() == value,
        n.wire() == nla_wire(kind, value),
        n.wf(),
{
    lemma_auto_spec_u16_to_from_le_bytes();
    lemma_auto_spec_u32_to_from_le_bytes();
}

/// Round trip of a neighbour message: one decoded from a payload in
/// emitted form re-emits that payload byte for byte.
pub proof fn lemma_neighbour_message_round_trip(m: NeighbourMessage, b: Seq<u8>)
    requires
        neighbour_payload_ok(b),
        neighbour_payload_canonical(b),
        neighbour_message_parsed(m, b),
    ensures
        m.wire() == b,
{
    lemma_auto_spec_u16_to_from_le_bytes();
    lemma_auto_spec_u32_to_from_le_bytes();
    assert(m.header.wire() =~= b.subrange(0, NEIGHBOUR_HEADER_LEN as int));
    let rest = b.skip(NEIGHBOUR_HEADER_LEN as int);
    crate::nla::lemma_nla_run_round_trip(rest);
    let items = nla_run_items(rest);
    assert forall|i: int| 0 <= i < m.nlas@.len() implies (#[trigger] m.nlas@[i]).wire()
        == nla_wire(items[i].0, items[i].1) by {
        lemma_neighbour_nla_round_trip(m.nlas@[i], items[i].0, items[i].1);
    }
    assert(m.nlas@.map_values(|n: NeighbourNla| n.wire()) =~= items.map_values(
        |it: (u16, Seq<u8>)| nla_wire(it.0, it.1),
    ));
    assert(m.wire() =~= b);
}

/// A buffer holding the payload of a neighbour message: the fixed header
/// followed by an attribute run.
#[derive(Debug, PartialEq, Eq, Clone)]
pub struct NeighbourBuffer {
    /// The payload bytes.
    pub buffer: Vec<u8>,
}

impl NeighbourBuffer {
    /// Wrap the given payload bytes; no check is performed.
    pub fn new(buffer: Vec<u8>) -> (r: NeighbourBuffer)
        ensures
            r.buffer == buffer,
    {
        NeighbourBuffer { buffer }
    }

    /// Consume the buffer, returning the underlying storage.
    pub fn into_inner(self) -> (r: Vec<u8>)
        ensures
            r == self.buffer,
    {
        self.buffer
    }

    /// Decodes a whole neighbour message.
    ///
    /// Succeeds exactly when the fixed header is present and the attribute
    /// run and every attribute value decode; a message parsed from a
    /// payload in emitted form re-emits byte for byte.
    pub fn parse(&self) -> (r: Result<NeighbourMessage, Error>)
        ensures
            r is Ok <==> neighbour_payload_ok(self.buffer@),
            r matches Ok(m) ==> neighbour_message_parsed(m, self.buffer@) && (
            neighbour_payload_canonical(self.buffer@) ==> m.wire() == self.buffer@),
            r matches Err(e) ==> !neighbour_payload_ok(self.buffer@) && (e is Truncated
                <==> (self.buffer@.len() < NEIGHBOUR_HEADER_LEN || nla_run_error_truncated(
                self.buffer@.skip(NEIGHBOUR_HEADER_LEN as int),
            ))) && (e is Truncated || e is Malformed),
    {
        let b: &[u8] = self.buffer.as_slice();
        let n: usize = b.len();
        if n < NEIGHBOUR_HEADER_LEN {
            return Err(Error::Truncated);
        }
        let header = NeighbourHeader::parse(b);
        let rest: &[u8] = slice_subrange(b, NEIGHBOUR_HEADER_LEN, n);
        let ghost items: Seq<(u16, Seq<u8>)> = nla_run_items(rest@);
        let raws: Vec<DefaultNla> = match parse_nlas(rest) {
            Ok(raws) => raws,
            Err(e) => {
                return Err(e);
            },
        };
        let mut nlas: Vec<NeighbourNla> = Vec::new();
        let rn: usize = raws.len();
        let mut i: usize = 0;
        proof {
            assert(rest@ =~= self.buffer@.skip(NEIGHBOUR_HEADER_LEN as int));
            assert(items.len() == raws@.len());
        }
        while i < rn
            invariant
                i <= rn,
                rn == raws@.len(),
                rest@ == self.buffer@.skip(NEIGHBOUR_HEADER_LEN as int),
                self.buffer@.len() >= NEIGHBOUR_HEADER_LEN,
                nla_run_ok(rest@),
                items == nla_run_items(rest@),
                items.len() == raws@.len(),
                raws@.map_values(|d: DefaultNla| (d.kind, d.value@)) == items,
                forall|k: int| 0 <= k < raws@.len() ==> (#[trigger] raws@[k]).wf(),
                nlas@.len() == i,
                forall|k: int|
                    0 <= k < i ==> neighbour_parse_ok(
                        (#[trigger] items[k]).0,
                        items[k].1,
                    ),
                forall|k: int|
                    0 <= k < i ==> neighbour_nla_matches(
                        #[trigger] nlas@[k],
                        items[k].0,
                        items[k].1,
                    ),
                forall|k: int| 0 <= k < i ==> (#[trigger] nlas@[k]).wf(),
                forall|k: int|
                    0 <= k < i ==> (neighbour_value_canonical(items[k].0) ==> (
                    #[trigger] nlas@[k]).wire() == nla_wire(items[k].0, items[k].1)),
            decreases rn - i,
        {
            proof {
                assert(raws@.map_values(|d: DefaultNla| (d.kind, d.value@))[i as int] == items[i
                    as int]);
            }
            let nla = match neighbour_nla_from(raws[i].kind, raws[i].value.as_slice()) {
                Ok(nla) => nla,
                Err(e) => {
                    proof {
                        crate::nla::lemma_run_ok_not_truncated(rest@);
                        assert(!neighbour_parse_ok(items[i as int].0, items[i as int].1));
                        assert(!neighbour_payload_ok(self.buffer@));
                    }
                    return Err(e);
                },
            };
            nlas.push(nla);
            i = i + 1;
        }
        let m = NeighbourMessage { header, nlas };
        proof {
            assert(neighbour_payload_ok(self.buffer@));
            if neighbour_payload_canonical(self.buffer@) {
                assert forall|k: int| 0 <= k < m.nlas@.len() implies (#[trigger] m.nlas@[k]).wire()
                    == raws@[k].wire() by {
                    assert(raws@.map_values(|d: DefaultNla| (d.kind, d.value@))[k] == items[k]);
                }
                assert(m.nlas@.map_values(|x: NeighbourNla| x.wire()) =~= raws@.map_values(
                    |d: DefaultNla| d.wire(),
                ));
                assert(m.wire() =~= self.buffer@);
            }
        }
        Ok(m)
    }
}

} // verus!
