//! Byte-level primitives shared by the whole codec: little-endian integer
//! reads and writes over byte buffers, and the 4-byte alignment arithmetic
//! of the netlink wire format.

use vstd::prelude::*;
use vstd::bytes::*;
use vstd::slice::slice_subrange;

verus! {

/// The number of padding bytes that follow `n` payload bytes on the wire.
pub open spec fn pad4(n: int) -> int {
    if n % 4 == 0 {
        0
    } else {
        4 - n % 4
    }
}

/// `n` rounded up to the netlink padding granularity of 4 bytes.
pub open spec fn align4(n: int) -> int {
    n + pad4(n)
}

pub proof fn lemma_align4(n: int)
    requires
        n >= 0,
    ensures
        n <= align4(n) < n + 4,
        align4(n) % 4 == 0,
        pad4(n) == align4(n) - n,
{
}

/// A run of `n` zero bytes, as written for padding.
pub open spec fn zeros(n: int) -> Seq<u8> {
    Seq::new(if n >= 0 {
        n as nat
    } else {
        0
    }, |i: int| 0u8)
}

/// `n` rounded up to a multiple of 4.
pub fn align4_usize(n: usize) -> (r: usize)
    requires
        n + 3 <= usize::MAX,
    ensures
        r == align4(n as int),
{
    let rem: usize = n % 4;
    if rem == 0 {
        n
    } else {
        n + (4 - rem)
    }
}

/// The 16-bit little-endian integer stored at `off`.
pub fn read_u16_le(b: &[u8], off: usize) -> (r: u16)
    requires
        off + 2 <= b@.len(),
    ensures
        r == spec_u16_from_le_bytes(b@.subrange(off as int, off as int + 2)),
{
    let _n: usize = b.len();
    u16_from_le_bytes(slice_subrange(b, off, off + 2))
}

/// The 32-bit little-endian integer stored at `off`.
pub fn read_u32_le(b: &[u8], off: usize) -> (r: u32)
    requires
        off + 4 <= b@.len(),
    ensures
        r == spec_u32_from_le_bytes(b@.subrange(off as int, off as int + 4)),
{
    let _n: usize = b.len();
    u32_from_le_bytes(slice_subrange(b, off, off + 4))
}

/// Appends the two little-endian bytes of `x`.
pub fn push_u16_le(out: &mut Vec<u8>, x: u16)
    ensures
        final(out)@ == old(out)@ + spec_u16_to_le_bytes(x),
{
    proof {
        lemma_auto_spec_u16_to_from_le_bytes();
    }
    let b: Vec<u8> = u16_to_le_bytes(x);
    out.push(b[0]);
    out.push(b[1]);
    proof {
        assert(out@ =~= old(out)@ + spec_u16_to_le_bytes(x));
    }
}

/// Appends the four little-endian bytes of `x`.
pub fn push_u32_le(out: &mut Vec<u8>, x: u32)
    ensures
        final(out)@ == old(out)@ + spec_u32_to_le_bytes(x),
{
    proof {
        lemma_auto_spec_u32_to_from_le_bytes();
    }
    let b: Vec<u8> = u32_to_le_bytes(x);
    out.push(b[0]);
    out.push(b[1]);
    out.push(b[2]);
    out.push(b[3]);
    proof {
        assert(out@ =~= old(out)@ + spec_u32_to_le_bytes(x));
    }
}

/// Appends `n` zero padding bytes.
pub fn push_zeros(out: &mut Vec<u8>, n: usize)
    ensures
        final(out)@ == old(out)@ + zeros(n as int),
{
    let mut i: usize = 0;
    while i < n
        invariant
            i <= n,
            out@ == old(out)@ + zeros(i as int),
        decreases n - i,
    {
        out.push(0u8);
        i = i + 1;
        proof {
            assert(out@ =~= old(out)@ + zeros(i as int));
        }
    }
}

/// Appends a copy of the given bytes.
pub fn push_slice(out: &mut Vec<u8>, src: &[u8])
    ensures
        final(out)@ == old(out)@ + src@,
{
    let n: usize = src.len();
    let mut i: usize = 0;
    while i < n
        invariant
            i <= n,
            n == src@.len(),
            out@ == old(out)@ + src@.subrange(0, i as int),
        decreases n - i,
    {
        out.push(src[i]);
        i = i + 1;
        proof {
            assert(out@ =~= old(out)@ + src@.subrange(0, i as int));
        }
    }
    proof {
        assert(src@.subrange(0, n as int) =~= src@);
    }
}

/// Overwrites `dst[off .. off + src.len()]` with `src`, leaving the rest of
/// `dst` untouched.
pub fn splice_bytes(dst: &mut Vec<u8>, off: usize, src: &[u8])
    requires
        off + src@.len() <= old(dst)@.len(),
    ensures
        final(dst)@.len() == old(dst)@.len(),
        final(dst)@ == old(dst)@.subrange(0, off as int) + src@ + old(dst)@.subrange(
            off as int + src@.len(),
            old(dst)@.len() as int,
        ),
{
    let n: usize = src.len();
    let _dlen: usize = dst.len();
    let mut i: usize = 0;
    while i < n
        invariant
            i <= n,
            n == src@.len(),
            off + n <= dst@.len(),
            dst@.len() == old(dst)@.len(),
            dst@.len() <= usize::MAX,
            forall|j: int|
                0 <= j < dst@.len() ==> dst@[j] == if off <= j < off + i {
                    src@[j - off]
                } else {
                    old(dst)@[j]
                },
        decreases n - i,
    {
        dst[off + i] = src[i];
        i = i + 1;
    }
    proof {
        assert(dst@ =~= old(dst)@.subrange(0, off as int) + src@ + old(dst)@.subrange(
            off as int + src@.len(),
            old(dst)@.len() as int,
        ));
    }
}

} // verus!
