//! The 16-bit flag word of a netlink header.

use vstd::prelude::*;

verus! {

/// The `flags` field of a netlink header: a plain bit set over the
/// `NLM_F_*` constants.
#[derive(Debug, PartialEq, Eq, Clone, Copy, Hash, Structural)]
pub struct NetlinkFlags(pub u16);

impl NetlinkFlags {
    /// An empty flag set.
    pub fn new() -> (r: NetlinkFlags)
        ensures
            r.0 == 0,
    {
        NetlinkFlags(0)
    }

    /// The raw bits, as they appear on the wire.
    pub fn bits(&self) -> (r: u16)
        ensures
            r == self.0,
    {
        self.0
    }
}

impl Default for NetlinkFlags {
    fn default() -> (r: NetlinkFlags)
        ensures
            r.0 == 0,
    {
        NetlinkFlags(0)
    }
}

impl From<u16> for NetlinkFlags {
    fn from(bits: u16) -> (r: NetlinkFlags) {
        NetlinkFlags(bits)
    }
}

impl vstd::std_specs::convert::FromSpecImpl<u16> for NetlinkFlags {
    open spec fn obeys_from_spec() -> bool {
        true
    }

    open spec fn from_spec(bits: u16) -> NetlinkFlags {
        NetlinkFlags(bits)
    }
}

} // verus!
