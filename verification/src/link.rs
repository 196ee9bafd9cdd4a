//! The rtnetlink link family: the fixed `ifinfomsg` header with its flag
//! and type vocabularies, the typed link attributes, and whole link
//! messages.

use vstd::prelude::*;
use vstd::bytes::*;
use vstd::slice::{slice_subrange, slice_to_vec};
use vstd::utf8::{decode_utf8, decode_utf8_encode_utf8, encode_utf8, valid_utf8};

use crate::bytes::{
    push_slice, push_u16_le, push_u32_le, read_u16_le, read_u32_le, splice_bytes,
};
use crate::constants::{
    ARPHRD_ETHER, ARPHRD_LOOPBACK, ARPHRD_NETROM, IFF_LOOPBACK, IFF_RUNNING, IFF_UP, IFLA_ADDRESS,
    IFLA_BROADCAST, IFLA_GROUP, IFLA_GSO_MAX_SEGS, IFLA_GSO_MAX_SIZE, IFLA_IFNAME, IFLA_LINK,
    IFLA_LINKMODE, IFLA_MTU, IFLA_NUM_TX_QUEUES, IFLA_OPERSTATE, IFLA_PROMISCUITY, IFLA_TXQLEN,
    IFLA_UNSPEC, LINK_HEADER_LEN, NLA_TYPE_MASK,
};
use crate::errors::Error;
use crate::nla::{
    concat_wires, emit_nla, lemma_concat_wires_snoc, lemma_nla_wire_fields, lemma_nla_wire_len,
    lemma_run_offset_concat, nla_run_canonical, nla_run_error_truncated, nla_run_items, nla_run_ok,
    nla_value_wf, nla_wire, parse_nlas, run_offset, DefaultNla, NlaBuffer,
};

verus! {

/// The device flag word of a link header: a bit set over the `IFF_*`
/// constants.
#[derive(Debug, PartialEq, Eq, Clone, Copy, Hash, Structural)]
pub struct LinkFlags(pub u32);

impl LinkFlags {
    /// An empty flag set.
    pub fn new() -> (r: LinkFlags)
        ensures
            r.0 == 0,
    {
        LinkFlags(0)
    }

    /// The raw bits, as they appear on the wire.
    pub fn bits(&self) -> (r: u32)
        ensures
            r == self.0,
    {
        self.0
    }

    /// Whether `IFF_UP` is set.
    pub fn has_up(&self) -> (r: bool)
        ensures
            r == (self.0 & IFF_UP != 0),
    {
        self.0 & IFF_UP != 0
    }

    /// Set `IFF_UP`.
    pub fn set_up(&mut self)
        ensures
            final(self).0 == old(self).0 | IFF_UP,
    {
        self.0 = self.0 | IFF_UP;
    }

    /// Whether `IFF_LOOPBACK` is set.
    pub fn has_loopback(&self) -> (r: bool)
        ensures
            r == (self.0 & IFF_LOOPBACK != 0),
    {
        self.0 & IFF_LOOPBACK != 0
    }

    /// Set `IFF_LOOPBACK`.
    pub fn set_loopback(&mut self)
        ensures
            final(self).0 == old(self).0 | IFF_LOOPBACK,
    {
        self.0 = self.0 | IFF_LOOPBACK;
    }

    /// Whether `IFF_RUNNING` is set.
    pub fn has_running(&self) -> (r: bool)
        ensures
            r == (self.0 & IFF_RUNNING != 0),
    {
        self.0 & IFF_RUNNING != 0
    }

    /// Set `IFF_RUNNING`.
    pub fn set_running(&mut self)
        ensures
            final(self).0 == old(self).0 | IFF_RUNNING,
    {
        self.0 = self.0 | IFF_RUNNING;
    }
}

impl Default for LinkFlags {
    fn default() -> (r: LinkFlags)
        ensures
            r.0 == 0,
    {
        LinkFlags(0)
    }
}

impl From<u32> for LinkFlags {
    fn from(bits: u32) -> (r: LinkFlags) {
        LinkFlags(bits)
    }
}

impl vstd::std_specs::convert::FromSpecImpl<u32> for LinkFlags {
    open spec fn obeys_from_spec() -> bool {
        true
    }

    open spec fn from_spec(bits: u32) -> LinkFlags {
        LinkFlags(bits)
    }
}

/// The link layer type of a device (`ARPHRD_*`); codes the codec does not
/// name are kept in [`LinkLayerType::Other`].
#[derive(Debug, PartialEq, Eq, Clone, Copy, Hash, Structural)]
pub enum LinkLayerType {
    Netrom,
    Ether,
    Loopback,
    Other(u16),
}

impl LinkLayerType {
    /// The wire code of this link layer type.
    pub open spec fn spec_code(self) -> u16 {
        match self {
            LinkLayerType::Netrom => ARPHRD_NETROM,
            LinkLayerType::Ether => ARPHRD_ETHER,
            LinkLayerType::Loopback => ARPHRD_LOOPBACK,
            LinkLayerType::Other(x) => x,
        }
    }

    /// The link layer type a wire code decodes to.
    pub open spec fn spec_from(code: u16) -> LinkLayerType {
        if code == ARPHRD_NETROM {
            LinkLayerType::Netrom
        } else if code == ARPHRD_ETHER {
            LinkLayerType::Ether
        } else if code == ARPHRD_LOOPBACK {
            LinkLayerType::Loopback
        } else {
            LinkLayerType::Other(code)
        }
    }

    /// Decode a wire code.
    pub fn from_code(code: u16) -> (r: LinkLayerType)
        ensures
            r == LinkLayerType::spec_from(code),
            r.spec_code() == code,
    {
        if code == ARPHRD_NETROM {
            LinkLayerType::Netrom
        } else if code == ARPHRD_ETHER {
            LinkLayerType::Ether
        } else if code == ARPHRD_LOOPBACK {
            LinkLayerType::Loopback
        } else {
            LinkLayerType::Other(code)
        }
    }

    /// The wire code of this link layer type.
    pub fn code(&self) -> (r: u16)
        ensures
            r == self.spec_code(),
    {
        match self {
            LinkLayerType::Netrom => ARPHRD_NETROM,
            LinkLayerType::Ether => ARPHRD_ETHER,
            LinkLayerType::Loopback => ARPHRD_LOOPBACK,
            LinkLayerType::Other(x) => *x,
        }
    }
}

impl Default for LinkLayerType {
    fn default() -> (r: LinkLayerType)
        ensures
            r == LinkLayerType::Netrom,
    {
        LinkLayerType::Netrom
    }
}

/// The operational state of a link (`IF_OPER_*`); values the codec does
/// not name are kept in [`LinkState::Other`].
#[derive(Debug, PartialEq, Eq, Clone, Copy, Hash, Structural)]
pub enum LinkState {
    Unknown,
    NotPresent,
    Down,
    LowerLayerDown,
    Testing,
    Dormant,
    Up,
    Other(u8),
}

impl LinkState {
    /// The wire value of this state.
    pub open spec fn spec_code(self) -> u8 {
        match self {
            LinkState::Unknown => 0,
            LinkState::NotPresent => 1,
            LinkState::Down => 2,
            LinkState::LowerLayerDown => 3,
            LinkState::Testing => 4,
            LinkState::Dormant => 5,
            LinkState::Up => 6,
            LinkState::Other(x) => x,
        }
    }

    /// The state a wire value decodes to.
    pub open spec fn spec_from(code: u8) -> LinkState {
        if code == 0 {
            LinkState::Unknown
        } else if code == 1 {
            LinkState::NotPresent
        } else if code == 2 {
            LinkState::Down
        } else if code == 3 {
            LinkState::LowerLayerDown
        } else if code == 4 {
            LinkState::Testing
        } else if code == 5 {
            LinkState::Dormant
        } else if code == 6 {
            LinkState::Up
        } else {
            LinkState::Other(code)
        }
    }

    /// Decode a wire value.
    pub fn from_code(code: u8) -> (r: LinkState)
        ensures
            r == LinkState::spec_from(code),
            r.spec_code() == code,
    {
        if code == 0 {
            LinkState::Unknown
        } else if code == 1 {
            LinkState::NotPresent
        } else if code == 2 {
            LinkState::Down
        } else if code == 3 {
            LinkState::LowerLayerDown
        } else if code == 4 {
            LinkState::Testing
        } else if code == 5 {
            LinkState::Dormant
        } else if code == 6 {
            LinkState::Up
        } else {
            LinkState::Other(code)
        }
    }

    /// The wire value of this state.
    pub fn code(&self) -> (r: u8)
        ensures
            r == self.spec_code(),
    {
        match self {
            LinkState::Unknown => 0,
            LinkState::NotPresent => 1,
            LinkState::Down => 2,
            LinkState::LowerLayerDown => 3,
            LinkState::Testing => 4,
            LinkState::Dormant => 5,
            LinkState::Up => 6,
            LinkState::Other(x) => *x,
        }
    }
}

/// The fixed rtnetlink link header (`ifinfomsg`): 16 bytes, of which the
/// second is reserved.
#[derive(Debug, PartialEq, Eq, Clone, Copy, Hash, Structural)]
pub struct LinkHeader {
    /// Address family.
    pub address_family: u8,
    /// Link layer type of the device.
    pub link_layer_type: LinkLayerType,
    /// Interface index.
    pub index: i32,
    /// Device flags (`IFF_*` bits).
    pub flags: LinkFlags,
    /// Change mask: which flag bits a request means to change.
    pub change_mask: u32,
}

impl LinkHeader {
    /// The 16 bytes this header occupies on the wire; the reserved byte is
    /// written as zero.
    pub open spec fn wire(self) -> Seq<u8> {
        seq![self.address_family, 0u8] + spec_u16_to_le_bytes(self.link_layer_type.spec_code())
            + spec_u32_to_le_bytes(self.index as u32) + spec_u32_to_le_bytes(self.flags.0)
            + spec_u32_to_le_bytes(self.change_mask)
    }

    /// The number of bytes this header occupies on the wire.
    pub fn buffer_len(&self) -> (r: usize)
        ensures
            r == self.wire().len(),
            r == LINK_HEADER_LEN,
    {
        proof {
            lemma_link_header_wire_len(*self);
        }
        LINK_HEADER_LEN
    }

    /// Appends the wire form of this header.
    pub fn emit(&self, out: &mut Vec<u8>)
        ensures
            final(out)@ == old(out)@ + self.wire(),
    {
        out.push(self.address_family);
        out.push(0u8);
        push_u16_le(out, self.link_layer_type.code());
        push_u32_le(out, self.index as u32);
        push_u32_le(out, self.flags.0);
        push_u32_le(out, self.change_mask);
        proof {
            assert(out@ =~= old(out)@ + self.wire());
        }
    }

    /// Decodes the fixed header from the first 16 bytes; the reserved byte
    /// is ignored.
    pub fn parse(payload: &[u8]) -> (r: LinkHeader)
        requires
            payload@.len() >= LINK_HEADER_LEN,
        ensures
            r.address_family == payload@[0],
            r.link_layer_type == LinkLayerType::spec_from(
                spec_u16_from_le_bytes(payload@.subrange(2, 4)),
            ),
            r.index as u32 == spec_u32_from_le_bytes(payload@.subrange(4, 8)),
            r.flags.0 == spec_u32_from_le_bytes(payload@.subrange(8, 12)),
            r.change_mask == spec_u32_from_le_bytes(payload@.subrange(12, 16)),
            payload@[1] == 0 ==> r.wire() == payload@.subrange(0, LINK_HEADER_LEN as int),
    {
        let index_bits: u32 = read_u32_le(payload, 4);
        let index: i32 = index_bits as i32;
        let r = LinkHeader {
            address_family: payload[0],
            link_layer_type: LinkLayerType::from_code(read_u16_le(payload, 2)),
            index,
            flags: LinkFlags(read_u32_le(payload, 8)),
            change_mask: read_u32_le(payload, 12),
        };
        proof {
            lemma_auto_spec_u16_to_from_le_bytes();
            lemma_auto_spec_u32_to_from_le_bytes();
            assert(index as u32 == index_bits) by (bit_vector)
                requires
                    index == index_bits as i32,
            ;
            if payload@[1] == 0 {
                assert(r.wire() =~= payload@.subrange(0, LINK_HEADER_LEN as int));
            }
        }
        r
    }
}

impl Default for LinkHeader {
    fn default() -> (r: LinkHeader)
        ensures
            r == (LinkHeader {
                address_family: 0u8,
                link_layer_type: LinkLayerType::Netrom,
                index: 0i32,
                flags: LinkFlags(0u32),
                change_mask: 0u32,
            }),
    {
        LinkHeader {
            address_family: 0,
            link_layer_type: LinkLayerType::Netrom,
            index: 0,
            flags: LinkFlags(0),
            change_mask: 0,
        }
    }
}

/// The wire form of a link header is always exactly 16 bytes.
pub proof fn lemma_link_header_wire_len(h: LinkHeader)
    ensures
        h.wire().len() == LINK_HEADER_LEN,
{
    lemma_auto_spec_u16_to_from_le_bytes();
    lemma_auto_spec_u32_to_from_le_bytes();
}

/// Relies on `String::from_utf8`: it returns the decoded string exactly
/// when the bytes are a valid UTF-8 encoding, and the string's characters
/// are the decoding of those bytes.
#[verifier::external_body]
fn string_from_utf8(bytes: Vec<u8>) -> (r: Option<String>)
    ensures
        r is Some <==> valid_utf8(bytes@),
        r matches Some(s) ==> s@ == decode_utf8(bytes@),
{
    match String::from_utf8(bytes) {
        Ok(s) => Some(s),
        Err(_) => None,
    }
}

/// A string attribute's value with one trailing NUL byte, if present,
/// trimmed.
pub open spec fn strip_nul(value: Seq<u8>) -> Seq<u8> {
    if value.len() > 0 && value.last() == 0 {
        value.drop_last()
    } else {
        value
    }
}

/// A typed link attribute. Unknown tags are preserved verbatim in
/// [`LinkNla::Other`].
#[derive(Debug, PartialEq, Eq, Clone)]
pub enum LinkNla {
    Unspec(Vec<u8>),
    Address(Vec<u8>),
    Broadcast(Vec<u8>),
    IfName(String),
    Mtu(u32),
    Link(u32),
    TxQueueLen(u32),
    OperState(LinkState),
    LinkMode(u8),
    Group(u32),
    Promiscuity(u32),
    NumTxQueues(u32),
    GsoMaxSegs(u32),
    GsoMaxSize(u32),
    Other(DefaultNla),
}

impl LinkNla {
    /// The type field this attribute emits.
    pub open spec fn spec_kind(self) -> u16 {
        match self {
            LinkNla::Unspec(_) => IFLA_UNSPEC,
            LinkNla::Address(_) => IFLA_ADDRESS,
            LinkNla::Broadcast(_) => IFLA_BROADCAST,
            LinkNla::IfName(_) => IFLA_IFNAME,
            LinkNla::Mtu(_) => IFLA_MTU,
            LinkNla::Link(_) => IFLA_LINK,
            LinkNla::TxQueueLen(_) => IFLA_TXQLEN,
            LinkNla::OperState(_) => IFLA_OPERSTATE,
            LinkNla::LinkMode(_) => IFLA_LINKMODE,
            LinkNla::Group(_) => IFLA_GROUP,
            LinkNla::Promiscuity(_) => IFLA_PROMISCUITY,
            LinkNla::NumTxQueues(_) => IFLA_NUM_TX_QUEUES,
            LinkNla::GsoMaxSegs(_) => IFLA_GSO_MAX_SEGS,
            LinkNla::GsoMaxSize(_) => IFLA_GSO_MAX_SIZE,
            LinkNla::Other(d) => d.kind,
        }
    }

    /// The value bytes this attribute emits; a string value carries one
    /// trailing NUL byte.
    pub open spec fn value_wire(self) -> Seq<u8> {
        match self {
            LinkNla::Unspec(v) => v@,
            LinkNla::Address(v) => v@,
            LinkNla::Broadcast(v) => v@,
            LinkNla::IfName(s) => encode_utf8(s@) + seq![0u8],
            LinkNla::Mtu(x) => spec_u32_to_le_bytes(x),
            LinkNla::Link(x) => spec_u32_to_le_bytes(x),
            LinkNla::TxQueueLen(x) => spec_u32_to_le_bytes(x),
            LinkNla::OperState(st) => seq![st.spec_code()],
            LinkNla::LinkMode(x) => seq![x],
            LinkNla::Group(x) => spec_u32_to_le_bytes(x),
            LinkNla::Promiscuity(x) => spec_u32_to_le_bytes(x),
            LinkNla::NumTxQueues(x) => spec_u32_to_le_bytes(x),
            LinkNla::GsoMaxSegs(x) => spec_u32_to_le_bytes(x),
            LinkNla::GsoMaxSize(x) => spec_u32_to_le_bytes(x),
            LinkNla::Other(d) => d.value@,
        }
    }

    /// The bytes this attribute occupies on the wire.
    pub open spec fn wire(self) -> Seq<u8> {
        nla_wire(self.spec_kind(), self.value_wire())
    }

    /// The value fits the attribute's 16-bit length field.
    pub open spec fn wf(self) -> bool {
        nla_value_wf(self.value_wire())
    }

    /// Length of the value this attribute emits.
    pub fn value_len(&self) -> (r: usize)
        requires
            self.wf(),
        ensures
            r == self.value_wire().len(),
    {
        proof {
            lemma_auto_spec_u32_to_from_le_bytes();
        }
        match self {
            LinkNla::Unspec(v) => v.len(),
            LinkNla::Address(v) => v.len(),
            LinkNla::Broadcast(v) => v.len(),
            LinkNla::IfName(s) => s.as_str().as_bytes().len() + 1,
            LinkNla::Mtu(_) => 4,
            LinkNla::Link(_) => 4,
            LinkNla::TxQueueLen(_) => 4,
            LinkNla::OperState(_) => 1,
            LinkNla::LinkMode(_) => 1,
            LinkNla::Group(_) => 4,
            LinkNla::Promiscuity(_) => 4,
            LinkNla::NumTxQueues(_) => 4,
            LinkNla::GsoMaxSegs(_) => 4,
            LinkNla::GsoMaxSize(_) => 4,
            LinkNla::Other(d) => d.value_len(),
        }
    }

    /// The type field this attribute emits.
    pub fn kind(&self) -> (r: u16)
        ensures
            r == self.spec_kind(),
    {
        match self {
            LinkNla::Unspec(_) => IFLA_UNSPEC,
            LinkNla::Address(_) => IFLA_ADDRESS,
            LinkNla::Broadcast(_) => IFLA_BROADCAST,
            LinkNla::IfName(_) => IFLA_IFNAME,
            LinkNla::Mtu(_) => IFLA_MTU,
            LinkNla::Link(_) => IFLA_LINK,
            LinkNla::TxQueueLen(_) => IFLA_TXQLEN,
            LinkNla::OperState(_) => IFLA_OPERSTATE,
            LinkNla::LinkMode(_) => IFLA_LINKMODE,
            LinkNla::Group(_) => IFLA_GROUP,
            LinkNla::Promiscuity(_) => IFLA_PROMISCUITY,
            LinkNla::NumTxQueues(_) => IFLA_NUM_TX_QUEUES,
            LinkNla::GsoMaxSegs(_) => IFLA_GSO_MAX_SEGS,
            LinkNla::GsoMaxSize(_) => IFLA_GSO_MAX_SIZE,
            LinkNla::Other(d) => d.kind(),
        }
    }

    /// Appends the value bytes of this attribute.
    pub fn emit_value(&self, out: &mut Vec<u8>)
        ensures
            final(out)@ == old(out)@ + self.value_wire(),
    {
        match self {
            LinkNla::Unspec(v) => push_slice(out, v.as_slice()),
            LinkNla::Address(v) => push_slice(out, v.as_slice()),
            LinkNla::Broadcast(v) => push_slice(out, v.as_slice()),
            LinkNla::IfName(s) => {
                push_slice(out, s.as_str().as_bytes());
                out.push(0u8);
                proof {
                    assert(out@ =~= old(out)@ + self.value_wire());
                }
            },
            LinkNla::Mtu(x) => push_u32_le(out, *x),
            LinkNla::Link(x) => push_u32_le(out, *x),
            LinkNla::TxQueueLen(x) => push_u32_le(out, *x),
            LinkNla::OperState(st) => out.push(st.code()),
            LinkNla::LinkMode(x) => out.push(*x),
            LinkNla::Group(x) => push_u32_le(out, *x),
            LinkNla::Promiscuity(x) => push_u32_le(out, *x),
            LinkNla::NumTxQueues(x) => push_u32_le(out, *x),
            LinkNla::GsoMaxSegs(x) => push_u32_le(out, *x),
            LinkNla::GsoMaxSize(x) => push_u32_le(out, *x),
            LinkNla::Other(d) => d.emit_value(out),
        }
    }

    /// The number of bytes this attribute occupies on the wire, padding
    /// included.
    pub fn buffer_len(&self) -> (r: usize)
        requires
            self.wf(),
        ensures
            r == self.wire().len(),
    {
        proof {
            lemma_nla_wire_len(self.spec_kind(), self.value_wire());
        }
        4 + crate::bytes::align4_usize(self.value_len())
    }

    /// Appends the wire form of this attribute.
    pub fn emit(&self, out: &mut Vec<u8>)
        requires
            self.wf(),
        ensures
            final(out)@ == old(out)@ + self.wire(),
    {
        let mut value: Vec<u8> = Vec::new();
        self.emit_value(&mut value);
        emit_nla(self.kind(), value.as_slice(), out);
    }
}

/// The conditions under which a link attribute value decodes: the 32-bit
/// integers must be 4 bytes, the byte-wide values 1, the device name must
/// be valid UTF-8 once a trailing NUL is trimmed; byte-string and unknown
/// tags take any value.
pub open spec fn link_parse_ok(kind: u16, value: Seq<u8>) -> bool {
    let tag = kind & NLA_TYPE_MASK;
    if tag == IFLA_IFNAME {
        valid_utf8(strip_nul(value)) && 4 + strip_nul(value).len() + 1 <= 0xFFFF
    } else if tag == IFLA_MTU || tag == IFLA_LINK || tag == IFLA_TXQLEN || tag == IFLA_GROUP
        || tag == IFLA_PROMISCUITY || tag == IFLA_NUM_TX_QUEUES || tag == IFLA_GSO_MAX_SEGS
        || tag == IFLA_GSO_MAX_SIZE {
        value.len() == 4
    } else if tag == IFLA_OPERSTATE || tag == IFLA_LINKMODE {
        value.len() == 1
    } else {
        true
    }
}

/// How a typed link attribute relates to the `(type, value)` pair it was
/// decoded from.
pub open spec fn link_nla_matches(n: LinkNla, kind: u16, value: Seq<u8>) -> bool {
    let tag = kind & NLA_TYPE_MASK;
    if tag == IFLA_UNSPEC {
        n matches LinkNla::Unspec(v) && v@ == value
    } else if tag == IFLA_ADDRESS {
        n matches LinkNla::Address(v) && v@ == value
    } else if tag == IFLA_BROADCAST {
        n matches LinkNla::Broadcast(v) && v@ == value
    } else if tag == IFLA_IFNAME {
        n matches LinkNla::IfName(s) && s@ == decode_utf8(strip_nul(value))
    } else if tag == IFLA_MTU {
        n matches LinkNla::Mtu(x) && x == spec_u32_from_le_bytes(value)
    } else if tag == IFLA_LINK {
        n matches LinkNla::Link(x) && x == spec_u32_from_le_bytes(value)
    } else if tag == IFLA_TXQLEN {
        n matches LinkNla::TxQueueLen(x) && x == spec_u32_from_le_bytes(value)
    } else if tag == IFLA_OPERSTATE {
        n matches LinkNla::OperState(st) && st == LinkState::spec_from(value[0])
    } else if tag == IFLA_LINKMODE {
        n matches LinkNla::LinkMode(x) && x == value[0]
    } else if tag == IFLA_GROUP {
        n matches LinkNla::Group(x) && x == spec_u32_from_le_bytes(value)
    } else if tag == IFLA_PROMISCUITY {
        n matches LinkNla::Promiscuity(x) && x == spec_u32_from_le_bytes(value)
    } else if tag == IFLA_NUM_TX_QUEUES {
        n matches LinkNla::NumTxQueues(x) && x == spec_u32_from_le_bytes(value)
    } else if tag == IFLA_GSO_MAX_SEGS {
        n matches LinkNla::GsoMaxSegs(x) && x == spec_u32_from_le_bytes(value)
    } else if tag == IFLA_GSO_MAX_SIZE {
        n matches LinkNla::GsoMaxSize(x) && x == spec_u32_from_le_bytes(value)
    } else {
        n matches LinkNla::Other(d) && d.kind == kind && d.value@ == value
    }
}

/// Whether a tag is one of the link tags the codec decodes into a typed
/// variant.
pub open spec fn link_tag_recognised(tag: u16) -> bool {
    ||| tag == IFLA_UNSPEC
    ||| tag == IFLA_ADDRESS
    ||| tag == IFLA_BROADCAST
    ||| tag == IFLA_IFNAME
    ||| tag == IFLA_MTU
    ||| tag == IFLA_LINK
    ||| tag == IFLA_TXQLEN
    ||| tag == IFLA_OPERSTATE
    ||| tag == IFLA_LINKMODE
    ||| tag == IFLA_GROUP
    ||| tag == IFLA_PROMISCUITY
    ||| tag == IFLA_NUM_TX_QUEUES
    ||| tag == IFLA_GSO_MAX_SEGS
    ||| tag == IFLA_GSO_MAX_SIZE
}

/// A `(type, value)` pair a typed link attribute re-emits byte for byte:
/// a recognised tag carries no flag bits, and a string value ends in
/// exactly one NUL byte.
pub open spec fn link_value_canonical(kind: u16, value: Seq<u8>) -> bool {
    let tag = kind & NLA_TYPE_MASK;
    &&& (link_tag_recognised(tag) ==> kind == tag)
    &&& (tag == IFLA_IFNAME ==> value.len() > 0 && value.last() == 0)
}

/// Decodes one link attribute from its type field and value.
fn link_nla_from(kind: u16, value: &[u8]) -> (r: Result<LinkNla, Error>)
    requires
        nla_value_wf(value@),
    ensures
        r is Ok <==> link_parse_ok(kind, value@),
        r matches Ok(n) ==> {
            &&& link_nla_matches(n, kind, value@)
            &&& n.wf()
            &&& (link_value_canonical(kind, value@) ==> n.spec_kind() == kind && n.value_wire()
                == value@)
        },
        r matches Err(e) ==> e is Malformed,
{
    proof {
        lemma_auto_spec_u16_to_from_le_bytes();
        lemma_auto_spec_u32_to_from_le_bytes();
    }
    let n: usize = value.len();
    let tag: u16 = kind & NLA_TYPE_MASK;
    if tag == IFLA_UNSPEC {
        Ok(LinkNla::Unspec(slice_to_vec(value)))
    } else if tag == IFLA_ADDRESS {
        Ok(LinkNla::Address(slice_to_vec(value)))
    } else if tag == IFLA_BROADCAST {
        Ok(LinkNla::Broadcast(slice_to_vec(value)))
    } else if tag == IFLA_IFNAME {
        let trimmed: &[u8] = if n > 0 && value[n - 1] == 0 {
            slice_subrange(value, 0, n - 1)
        } else {
            value
        };
        proof {
            assert(trimmed@ == strip_nul(value@));
        }
        if trimmed.len() > 0xFFFA {
            return Err(Error::Malformed);
        }
        match string_from_utf8(slice_to_vec(trimmed)) {
            Some(s) => {
                proof {
                    decode_utf8_encode_utf8(trimmed@);
                    if link_value_canonical(kind, value@) {
                        assert(encode_utf8(s@) + seq![0u8] =~= value@);
                    }
                }
                Ok(LinkNla::IfName(s))
            },
            None => Err(Error::Malformed),
        }
    } else if tag == IFLA_MTU {
        if n == 4 {
            proof {
                assert(value@.subrange(0, 4) =~= value@);
            }
            Ok(LinkNla::Mtu(read_u32_le(value, 0)))
        } else {
            Err(Error::Malformed)
        }
    } else if tag == IFLA_LINK {
        if n == 4 {
            proof {
                assert(value@.subrange(0, 4) =~= value@);
            }
            Ok(LinkNla::Link(read_u32_le(value, 0)))
        } else {
            Err(Error::Malformed)
        }
    } else if tag == IFLA_TXQLEN {
        if n == 4 {
            proof {
                assert(value@.subrange(0, 4) =~= value@);
            }
            Ok(LinkNla::TxQueueLen(read_u32_le(value, 0)))
        } else {
            Err(Error::Malformed)
        }
    } else if tag == IFLA_OPERSTATE {
        if n == 1 {
            Ok(LinkNla::OperState(LinkState::from_code(value[0])))
        } else {
            Err(Error::Malformed)
        }
    } else if tag == IFLA_LINKMODE {
        if n == 1 {
            Ok(LinkNla::LinkMode(value[0]))
        } else {
            Err(Error::Malformed)
        }
    } else if tag == IFLA_GROUP {
        if n == 4 {
            proof {
                assert(value@.subrange(0, 4) =~= value@);
            }
            Ok(LinkNla::Group(read_u32_le(value, 0)))
        } else {
            Err(Error::Malformed)
        }
    } else if tag == IFLA_PROMISCUITY {
        if n == 4 {
            proof {
                assert(value@.subrange(0, 4) =~= value@);
            }
            Ok(LinkNla::Promiscuity(read_u32_le(value, 0)))
        } else {
            Err(Error::Malformed)
        }
    } else if tag == IFLA_NUM_TX_QUEUES {
        if n == 4 {
            proof {
                assert(value@.subrange(0, 4) =~= value@);
            }
            Ok(LinkNla::NumTxQueues(read_u32_le(value, 0)))
        } else {
            Err(Error::Malformed)
        }
    } else if tag == IFLA_GSO_MAX_SEGS {
        if n == 4 {
            proof {
                assert(value@.subrange(0, 4) =~= value@);
            }
            Ok(LinkNla::GsoMaxSegs(read_u32_le(value, 0)))
        } else {
            Err(Error::Malformed)
        }
    } else if tag == IFLA_GSO_MAX_SIZE {
        if n == 4 {
            proof {
                assert(value@.subrange(0, 4) =~= value@);
            }
            Ok(LinkNla::GsoMaxSize(read_u32_le(value, 0)))
        } else {
            Err(Error::Malformed)
        }
    } else {
        Ok(LinkNla::Other(DefaultNla { kind, value: slice_to_vec(value) }))
    }
}

/// An unknown link tag is preserved: an attribute decoded from a
/// `(type, value)` pair whose tag the codec does not recognise is carried
/// verbatim and re-emits that pair exactly, flag bits included.
pub proof fn lemma_unknown_tag_preserved(n: LinkNla, kind: u16, value: Seq<u8>)
    requires
        !link_tag_recognised(kind & NLA_TYPE_MASK),
        link_nla_matches(n, kind, value),
    ensures
        n matches LinkNla::Other(d) && d.kind == kind && d.value@ == value,
        n.wire() == nla_wire(kind, value),
{
}

/// Round trip of one typed link attribute: decoded from a canonical
/// `(type, value)` pair, it re-emits that pair exactly.
pub proof fn lemma_link_nla_round_trip(n: LinkNla, kind: u16, value: Seq<u8>)
    requires
        link_parse_ok(kind, value),
        link_nla_matches(n, kind, value),
        link_value_canonical(kind, value),
        nla_value_wf(value),
    ensures
        n.spec_kind() == kind,
        n.value_wire() == value,
        n.wire() == nla_wire(kind, value),
        n.wf(),
{
    lemma_auto_spec_u16_to_from_le_bytes();
    lemma_auto_spec_u32_to_from_le_bytes();
    let tag = kind & NLA_TYPE_MASK;
    if tag == IFLA_IFNAME {
        decode_utf8_encode_utf8(strip_nul(value));
        assert(n.value_wire() =~= value);
    } else if tag == IFLA_OPERSTATE {
        assert(n.value_wire() =~= value);
    } else if tag == IFLA_LINKMODE {
        assert(n.value_wire() =~= value);
    }
}

impl NlaBuffer {
    /// Decodes this attribute as a typed link attribute.
    pub fn parse_link(&self) -> (r: Result<LinkNla, Error>)
        requires
            self.wf(),
        ensures
            r is Ok <==> link_parse_ok(self.spec_kind_raw(), self.spec_value()),
            r matches Ok(n) ==> link_nla_matches(n, self.spec_kind_raw(), self.spec_value())
                && n.wf(),
            r matches Err(e) ==> e is Malformed,
    {
        let value: Vec<u8> = self.value();
        link_nla_from(self.kind_raw(), value.as_slice())
    }
}

/// A whole link message: the fixed header followed by its attributes.
#[derive(Debug, PartialEq, Eq, Clone)]
pub struct LinkMessage {
    pub header: LinkHeader,
    pub nlas: Vec<LinkNla>,
}

/// A link message's payload decodes: the fixed header is present and the
/// attribute run and every attribute value are well formed.
pub open spec fn link_payload_ok(b: Seq<u8>) -> bool {
    &&& b.len() >= LINK_HEADER_LEN
    &&& nla_run_ok(b.skip(LINK_HEADER_LEN as int))
    &&& forall|i: int|
        0 <= i < nla_run_items(b.skip(LINK_HEADER_LEN as int)).len() ==> link_parse_ok(
            (#[trigger] nla_run_items(b.skip(LINK_HEADER_LEN as int))[i]).0,
            nla_run_items(b.skip(LINK_HEADER_LEN as int))[i].1,
        )
}

/// A link message's payload is in emitted form: the reserved header byte
/// zero, the attribute run padded canonically, and every attribute's
/// `(type, value)` pair canonical.
pub open spec fn link_payload_canonical(b: Seq<u8>) -> bool {
    &&& b.len() >= LINK_HEADER_LEN
    &&& b[1] == 0
    &&& nla_run_canonical(b.skip(LINK_HEADER_LEN as int))
    &&& forall|i: int|
        0 <= i < nla_run_items(b.skip(LINK_HEADER_LEN as int)).len() ==> link_value_canonical(
            (#[trigger] nla_run_items(b.skip(LINK_HEADER_LEN as int))[i]).0,
            nla_run_items(b.skip(LINK_HEADER_LEN as int))[i].1,
        )
}

/// How a decoded link message relates to the payload it was decoded from:
/// the header fields are the reads of the fixed header, and each typed
/// attribute matches its `(type, value)` pair of the run.
pub open spec fn link_message_parsed(m: LinkMessage, b: Seq<u8>) -> bool {
    &&& b.len() >= LINK_HEADER_LEN
    &&& m.header.address_family == b[0]
    &&& m.header.link_layer_type == LinkLayerType::spec_from(
        spec_u16_from_le_bytes(b.subrange(2, 4)),
    )
    &&& m.header.index as u32 == spec_u32_from_le_bytes(b.subrange(4, 8))
    &&& m.header.flags.0 == spec_u32_from_le_bytes(b.subrange(8, 12))
    &&& m.header.change_mask == spec_u32_from_le_bytes(b.subrange(12, 16))
    &&& m.wf()
    &&& m.nlas@.len() == nla_run_items(b.skip(LINK_HEADER_LEN as int)).len()
    &&& forall|i: int|
        0 <= i < m.nlas@.len() ==> link_nla_matches(
            #[trigger] m.nlas@[i],
            nla_run_items(b.skip(LINK_HEADER_LEN as int))[i].0,
            nla_run_items(b.skip(LINK_HEADER_LEN as int))[i].1,
        )
}

impl LinkMessage {
    /// The bytes this message occupies on the wire: the fixed header, then
    /// the attributes back to back.
    pub open spec fn wire(self) -> Seq<u8> {
        self.header.wire() + concat_wires(self.nlas@.map_values(|n: LinkNla| n.wire()))
    }

    /// Every attribute value fits its length field.
    pub open spec fn wf(self) -> bool {
        forall|i: int| 0 <= i < self.nlas@.len() ==> (#[trigger] self.nlas@[i]).wf()
    }

    /// An empty link message: an all-zero header and no attributes.
    pub fn new() -> (r: LinkMessage)
        ensures
            r.header == (LinkHeader {
                address_family: 0u8,
                link_layer_type: LinkLayerType::Netrom,
                index: 0i32,
                flags: LinkFlags(0u32),
                change_mask: 0u32,
            }),
            r.nlas@.len() == 0,
    {
        LinkMessage { header: LinkHeader::default(), nlas: Vec::new() }
    }

    /// The number of bytes this message occupies on the wire.
    pub fn buffer_len(&self) -> (r: usize)
        requires
            self.wf(),
            self.wire().len() <= u32::MAX,
        ensures
            r == self.wire().len(),
    {
        let ghost ws: Seq<Seq<u8>> = self.nlas@.map_values(|n: LinkNla| n.wire());
        let mut acc: usize = self.header.buffer_len();
        let n: usize = self.nlas.len();
        let mut i: usize = 0;
        proof {
            lemma_run_offset_concat(ws, ws.len() as int);
        }
        while i < n
            invariant
                i <= n,
                n == self.nlas@.len(),
                self.wf(),
                ws == self.nlas@.map_values(|x: LinkNla| x.wire()),
                acc == LINK_HEADER_LEN + run_offset(ws, i as int),
                run_offset(ws, ws.len() as int) == concat_wires(ws).len(),
                self.wire().len() == LINK_HEADER_LEN + concat_wires(ws).len(),
                self.wire().len() <= u32::MAX,
            decreases n - i,
        {
            proof {
                lemma_run_offset_concat(ws, i as int);
                lemma_run_offset_concat(ws, i + 1);
                assert(run_offset(ws, i + 1) == run_offset(ws, i as int) + ws[i as int].len());
            }
            acc = acc + self.nlas[i].buffer_len();
            i = i + 1;
        }
        acc
    }

    /// Appends the wire form of this message.
    pub fn emit(&self, out: &mut Vec<u8>)
        requires
            self.wf(),
        ensures
            final(out)@ == old(out)@ + self.wire(),
    {
        let ghost ws: Seq<Seq<u8>> = self.nlas@.map_values(|n: LinkNla| n.wire());
        self.header.emit(out);
        let n: usize = self.nlas.len();
        let mut i: usize = 0;
        while i < n
            invariant
                i <= n,
                n == self.nlas@.len(),
                self.wf(),
                ws == self.nlas@.map_values(|x: LinkNla| x.wire()),
                out@ == old(out)@ + self.header.wire() + concat_wires(
                    self.nlas@.subrange(0, i as int).map_values(|x: LinkNla| x.wire()),
                ),
            decreases n - i,
        {
            let ghost prefix: Seq<LinkNla> = self.nlas@.subrange(0, i as int);
            self.nlas[i].emit(out);
            i = i + 1;
            proof {
                assert(self.nlas@.subrange(0, i as int) =~= prefix + seq![self.nlas@[i - 1]]);
                assert(self.nlas@.subrange(0, i as int).map_values(|x: LinkNla| x.wire())
                    =~= prefix.map_values(|x: LinkNla| x.wire()) + seq![self.nlas@[i - 1].wire()]);
                lemma_concat_wires_snoc(
                    prefix.map_values(|x: LinkNla| x.wire()),
                    self.nlas@[i - 1].wire(),
                );
            }
        }
        proof {
            assert(self.nlas@.subrange(0, n as int) =~= self.nlas@);
            assert(out@ =~= old(out)@ + self.wire());
        }
    }
}

impl Default for LinkMessage {
    fn default() -> (r: LinkMessage)
        ensures
            r.header == (LinkHeader {
                address_family: 0u8,
                link_layer_type: LinkLayerType::Netrom,
                index: 0i32,
                flags: LinkFlags(0u32),
                change_mask: 0u32,
            }),
            r.nlas@.len() == 0,
    {
        LinkMessage { header: LinkHeader::default(), nlas: Vec::new() }
    }
}

/// Round trip of a link message: one decoded from a payload in emitted
/// form re-emits that payload byte for byte.
pub proof fn lemma_link_message_round_trip(m: LinkMessage, b: Seq<u8>)
    requires
        link_payload_ok(b),
        link_payload_canonical(b),
        link_message_parsed(m, b),
    ensures
        m.wire() == b,
{
    lemma_auto_spec_u16_to_from_le_bytes();
    lemma_auto_spec_u32_to_from_le_bytes();
    assert(m.header.wire() =~= b.subrange(0, LINK_HEADER_LEN as int));
    let rest = b.skip(LINK_HEADER_LEN as int);
    crate::nla::lemma_nla_run_round_trip(rest);
    let items = nla_run_items(rest);
    assert forall|i: int| 0 <= i < m.nlas@.len() implies (#[trigger] m.nlas@[i]).wire()
        == nla_wire(items[i].0, items[i].1) by {
        lemma_link_nla_round_trip(m.nlas@[i], items[i].0, items[i].1);
    }
    assert(m.nlas@.map_values(|n: LinkNla| n.wire()) =~= items.map_values(
        |it: (u16, Seq<u8>)| nla_wire(it.0, it.1),
    ));
    assert(m.wire() =~= b);
}

/// A buffer holding the payload of a link message: the fixed header
/// followed by an attribute run.
#[derive(Debug, PartialEq, Eq, Clone)]
pub struct LinkBuffer {
    /// The payload bytes.
    pub buffer: Vec<u8>,
}

impl LinkBuffer {
    /// Wrap the given payload bytes; no check is performed.
    pub fn new(buffer: Vec<u8>) -> (r: LinkBuffer)
        ensures
            r.buffer == buffer,
    {
        LinkBuffer { buffer }
    }

    /// Consume the buffer, returning the underlying storage.
    pub fn into_inner(self) -> (r: Vec<u8>)
        ensures
            r == self.buffer,
    {
        self.buffer
    }

    /// Return the `address_family` field.
    pub fn address_family(&self) -> (r: u8)
        requires
            self.buffer@.len() >= LINK_HEADER_LEN,
        ensures
            r == self.buffer@[0],
    {
        self.buffer[0]
    }

    /// Set the `address_family` field.
    pub fn set_address_family(&mut self, value: u8)
        requires
            old(self).buffer@.len() >= LINK_HEADER_LEN,
        ensures
            final(self).buffer@ == old(self).buffer@.update(0, value),
    {
        self.buffer[0] = value;
    }

    /// Return the reserved byte after the address family.
    pub fn reserved_1(&self) -> (r: u8)
        requires
            self.buffer@.len() >= LINK_HEADER_LEN,
        ensures
            r == self.buffer@[1],
    {
        self.buffer[1]
    }

    /// Set the reserved byte after the address family.
    pub fn set_reserved_1(&mut self, value: u8)
        requires
            old(self).buffer@.len() >= LINK_HEADER_LEN,
        ensures
            final(self).buffer@ == old(self).buffer@.update(1, value),
    {
        self.buffer[1] = value;
    }

    /// Return the `link_layer_type` field.
    pub fn link_layer_type(&self) -> (r: LinkLayerType)
        requires
            self.buffer@.len() >= LINK_HEADER_LEN,
        ensures
            r == LinkLayerType::spec_from(spec_u16_from_le_bytes(self.buffer@.subrange(2, 4))),
    {
        LinkLayerType::from_code(read_u16_le(self.buffer.as_slice(), 2))
    }

    /// Set the `link_layer_type` field.
    pub fn set_link_layer_type(&mut self, value: LinkLayerType)
        requires
            old(self).buffer@.len() >= LINK_HEADER_LEN,
        ensures
            final(self).buffer@ == old(self).buffer@.subrange(0, 2) + spec_u16_to_le_bytes(
                value.spec_code(),
            ) + old(self).buffer@.subrange(4, old(self).buffer@.len() as int),
            final(self).buffer@.len() == old(self).buffer@.len(),
    {
        let bytes: Vec<u8> = u16_to_le_bytes(value.code());
        splice_bytes(&mut self.buffer, 2, bytes.as_slice());
    }

    /// Return the `index` field.
    pub fn link_index(&self) -> (r: i32)
        requires
            self.buffer@.len() >= LINK_HEADER_LEN,
        ensures
            r as u32 == spec_u32_from_le_bytes(self.buffer@.subrange(4, 8)),
    {
        let bits: u32 = read_u32_le(self.buffer.as_slice(), 4);
        let r: i32 = bits as i32;
        proof {
            assert(r as u32 == bits) by (bit_vector)
                requires
                    r == bits as i32,
            ;
        }
        r
    }

    /// Set the `index` field.
    pub fn set_link_index(&mut self, value: i32)
        requires
            old(self).buffer@.len() >= LINK_HEADER_LEN,
        ensures
            final(self).buffer@ == old(self).buffer@.subrange(0, 4) + spec_u32_to_le_bytes(
                value as u32,
            ) + old(self).buffer@.subrange(8, old(self).buffer@.len() as int),
            final(self).buffer@.len() == old(self).buffer@.len(),
    {
        let bytes: Vec<u8> = u32_to_le_bytes(value as u32);
        splice_bytes(&mut self.buffer, 4, bytes.as_slice());
    }

    /// Return the `flags` field.
    pub fn flags(&self) -> (r: LinkFlags)
        requires
            self.buffer@.len() >= LINK_HEADER_LEN,
        ensures
            r.0 == spec_u32_from_le_bytes(self.buffer@.subrange(8, 12)),
    {
        LinkFlags(read_u32_le(self.buffer.as_slice(), 8))
    }

    /// Set the `flags` field.
    pub fn set_flags(&mut self, value: LinkFlags)
        requires
            old(self).buffer@.len() >= LINK_HEADER_LEN,
        ensures
            final(self).buffer@ == old(self).buffer@.subrange(0, 8) + spec_u32_to_le_bytes(value.0)
                + old(self).buffer@.subrange(12, old(self).buffer@.len() as int),
            final(self).buffer@.len() == old(self).buffer@.len(),
    {
        let bytes: Vec<u8> = u32_to_le_bytes(value.0);
        splice_bytes(&mut self.buffer, 8, bytes.as_slice());
    }

    /// Return the change mask (the second reserved word).
    pub fn reserved_2(&self) -> (r: u32)
        requires
            self.buffer@.len() >= LINK_HEADER_LEN,
        ensures
            r == spec_u32_from_le_bytes(self.buffer@.subrange(12, 16)),
    {
        read_u32_le(self.buffer.as_slice(), 12)
    }

    /// Set the change mask (the second reserved word).
    pub fn set_reserved_2(&mut self, value: u32)
        requires
            old(self).buffer@.len() >= LINK_HEADER_LEN,
        ensures
            final(self).buffer@ == old(self).buffer@.subrange(0, 12) + spec_u32_to_le_bytes(value)
                + old(self).buffer@.subrange(16, old(self).buffer@.len() as int),
            final(self).buffer@.len() == old(self).buffer@.len(),
    {
        let bytes: Vec<u8> = u32_to_le_bytes(value);
        splice_bytes(&mut self.buffer, 12, bytes.as_slice());
    }

    /// Splits the attribute run that follows the fixed header, each
    /// attribute rebuilt in its own storage with its padding zeroed.
    pub fn nlas(&self) -> (r: Result<Vec<NlaBuffer>, Error>)
        requires
            self.buffer@.len() >= LINK_HEADER_LEN,
        ensures
            r is Ok <==> nla_run_ok(self.buffer@.skip(LINK_HEADER_LEN as int)),
            r matches Ok(v) ==> {
                &&& v@.len() == nla_run_items(self.buffer@.skip(LINK_HEADER_LEN as int)).len()
                &&& forall|i: int|
                    0 <= i < v@.len() ==> (#[trigger] v@[i]).buffer@ == nla_wire(
                        nla_run_items(self.buffer@.skip(LINK_HEADER_LEN as int))[i].0,
                        nla_run_items(self.buffer@.skip(LINK_HEADER_LEN as int))[i].1,
                    ) && v@[i].wf()
            },
            r matches Err(e) ==> (e is Truncated || e is Malformed),
    {
        let b: &[u8] = self.buffer.as_slice();
        let n: usize = b.len();
        let rest: &[u8] = slice_subrange(b, LINK_HEADER_LEN, n);
        let ghost items: Seq<(u16, Seq<u8>)> = nla_run_items(rest@);
        proof {
            assert(rest@ =~= self.buffer@.skip(LINK_HEADER_LEN as int));
        }
        let raws: Vec<DefaultNla> = match parse_nlas(rest) {
            Ok(raws) => raws,
            Err(e) => {
                return Err(e);
            },
        };
        let mut bufs: Vec<NlaBuffer> = Vec::new();
        let rn: usize = raws.len();
        let mut i: usize = 0;
        proof {
            assert(items.len() == raws@.len());
        }
        while i < rn
            invariant
                i <= rn,
                rn == raws@.len(),
                items.len() == raws@.len(),
                raws@.map_values(|d: DefaultNla| (d.kind, d.value@)) == items,
                forall|k: int| 0 <= k < raws@.len() ==> (#[trigger] raws@[k]).wf(),
                bufs@.len() == i,
                forall|k: int|
                    0 <= k < i ==> (#[trigger] bufs@[k]).buffer@ == nla_wire(
                        items[k].0,
                        items[k].1,
                    ) && bufs@[k].wf(),
            decreases rn - i,
        {
            proof {
                assert(raws@.map_values(|d: DefaultNla| (d.kind, d.value@))[i as int] == items[i
                    as int]);
            }
            let mut w: Vec<u8> = Vec::new();
            raws[i].emit(&mut w);
            let nb = NlaBuffer::new(w);
            proof {
                lemma_nla_wire_len(raws@[i as int].kind, raws@[i as int].value@);
                lemma_nla_wire_fields(raws@[i as int].kind, raws@[i as int].value@);
            }
            bufs.push(nb);
            i = i + 1;
        }
        Ok(bufs)
    }

    /// Decodes a whole link message.
    ///
    /// Succeeds exactly when the fixed header is present and the attribute
    /// run and every attribute value decode; a message parsed from a
    /// payload in emitted form re-emits byte for byte.
    pub fn parse(&self) -> (r: Result<LinkMessage, Error>)
        ensures
            r is Ok <==> link_payload_ok(self.buffer@),
            r matches Ok(m) ==> link_message_parsed(m, self.buffer@) && (link_payload_canonical(
                self.buffer@,
            ) ==> m.wire() == self.buffer@),
            r matches Err(e) ==> !link_payload_ok(self.buffer@) && (e is Truncated <==> (
            self.buffer@.len() < LINK_HEADER_LEN || nla_run_error_truncated(
                self.buffer@.skip(LINK_HEADER_LEN as int),
            ))) && (e is Truncated || e is Malformed),
    {
        let b: &[u8] = self.buffer.as_slice();
        let n: usize = b.len();
        if n < LINK_HEADER_LEN {
            return Err(Error::Truncated);
        }
        let header = LinkHeader::parse(b);
        let rest: &[u8] = slice_subrange(b, LINK_HEADER_LEN, n);
        let ghost items: Seq<(u16, Seq<u8>)> = nla_run_items(rest@);
        let raws: Vec<DefaultNla> = match parse_nlas(rest) {
            Ok(raws) => raws,
            Err(e) => {
                return Err(e);
            },
        };
        let mut nlas: Vec<LinkNla> = Vec::new();
        let rn: usize = raws.len();
        let mut i: usize = 0;
        proof {
            assert(rest@ =~= self.buffer@.skip(LINK_HEADER_LEN as int));
            assert(items.len() == raws@.len());
        }
        while i < rn
            invariant
                i <= rn,
                rn == raws@.len(),
                rest@ == self.buffer@.skip(LINK_HEADER_LEN as int),
                self.buffer@.len() >= LINK_HEADER_LEN,
                nla_run_ok(rest@),
                items == nla_run_items(rest@),
                items.len() == raws@.len(),
                raws@.map_values(|d: DefaultNla| (d.kind, d.value@)) == items,
                forall|k: int| 0 <= k < raws@.len() ==> (#[trigger] raws@[k]).wf(),
                nlas@.len() == i,
                forall|k: int|
                    0 <= k < i ==> link_parse_ok((#[trigger] items[k]).0, items[k].1),
                forall|k: int|
                    0 <= k < i ==> link_nla_matches(#[trigger] nlas@[k], items[k].0, items[k].1),
                forall|k: int| 0 <= k < i ==> (#[trigger] nlas@[k]).wf(),
                forall|k: int|
                    0 <= k < i ==> (link_value_canonical(items[k].0, items[k].1) ==> (
                    #[trigger] nlas@[k]).wire() == nla_wire(items[k].0, items[k].1)),
            decreases rn - i,
        {
            proof {
                assert(raws@.map_values(|d: DefaultNla| (d.kind, d.value@))[i as int] == items[i
                    as int]);
            }
            let nla = match link_nla_from(raws[i].kind, raws[i].value.as_slice()) {
                Ok(nla) => nla,
                Err(e) => {
                    proof {
                        crate::nla::lemma_run_ok_not_truncated(rest@);
                        assert(!link_parse_ok(items[i as int].0, items[i as int].1));
                        assert(!link_payload_ok(self.buffer@));
                    }
                    return Err(e);
                },
            };
            nlas.push(nla);
            i = i + 1;
        }
        let m = LinkMessage { header, nlas };
        proof {
            assert(link_payload_ok(self.buffer@));
            if link_payload_canonical(self.buffer@) {
                assert forall|k: int| 0 <= k < m.nlas@.len() implies (#[trigger] m.nlas@[k]).wire()
                    == raws@[k].wire() by {
                    assert(raws@.map_values(|d: DefaultNla| (d.kind, d.value@))[k] == items[k]);
                }
                assert(m.nlas@.map_values(|x: LinkNla| x.wire()) =~= raws@.map_values(
                    |d: DefaultNla| d.wire(),
                ));
                assert(m.wire() =~= self.buffer@);
            }
        }
        Ok(m)
    }
}

} // verus!
