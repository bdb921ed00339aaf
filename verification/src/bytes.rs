//! Byte-level helpers the container sniffers share.

use vstd::prelude::*;

verus! {

/// Whether `b` begins with `p`.
pub open spec fn starts_with(b: Seq<u8>, p: Seq<u8>) -> bool {
    p.len() <= b.len() && b.subrange(0, p.len() as int) == p
}

/// Whether `b` ends with `p`.
pub open spec fn ends_with(b: Seq<u8>, p: Seq<u8>) -> bool {
    p.len() <= b.len() && b.subrange(b.len() - p.len(), b.len() as int) == p
}

/// Whether `b` begins with `p`.
pub fn has_prefix(b: &[u8], p: &[u8]) -> (r: bool)
    ensures
        r == starts_with(b@, p@),
{
    if p.len() > b.len() {
        return false;
    }
    let mut i: usize = 0;
    while i < p.len()
        invariant
            p@.len() <= b@.len(),
            i <= p@.len(),
            forall|j: int| 0 <= j < i ==> b@[j] == p@[j],
        decreases p@.len() - i,
    {
        if b[i] != p[i] {
            assert(b@.subrange(0, p@.len() as int)[i as int] != p@[i as int]);
            return false;
        }
        i = i + 1;
    }
    assert(b@.subrange(0, p@.len() as int) =~= p@);
    true
}

/// Whether `b` ends with `p`.
pub fn has_suffix(b: &[u8], p: &[u8]) -> (r: bool)
    ensures
        r == ends_with(b@, p@),
{
    if p.len() > b.len() {
        return false;
    }
    let n = b.len();
    let off = n - p.len();
    let mut i: usize = 0;
    while i < p.len()
        invariant
            n == b@.len(),
            p@.len() <= b@.len(),
            off == b@.len() - p@.len(),
            i <= p@.len(),
            forall|j: int| 0 <= j < i ==> b@[off + j] == p@[j],
        decreases p@.len() - i,
    {
        if b[off + i] != p[i] {
            assert(b@.subrange(off as int, b@.len() as int)[i as int] != p@[i as int]);
            return false;
        }
        i = i + 1;
    }
    assert(b@.subrange(off as int, b@.len() as int) =~= p@);
    true
}

/// A little-endian 16-bit value at `at`.
pub open spec fn le16(b: Seq<u8>, at: int) -> int {
    b[at] + b[at + 1] * 256
}

/// A big-endian 32-bit value at `at`.
pub open spec fn be32_at(b: Seq<u8>, at: int) -> int {
    ((b[at] * 256 + b[at + 1]) * 256 + b[at + 2]) * 256 + b[at + 3]
}

/// A big-endian 32-bit value is never negative, and fits in 32 bits.
pub proof fn lemma_be32_range(b: Seq<u8>, at: int)
    requires
        0 <= at,
        at + 4 <= b.len(),
    ensures
        0 <= be32_at(b, at) <= u32::MAX,
{
    let (b0, b1, b2, b3) = (b[at] as int, b[at + 1] as int, b[at + 2] as int, b[at + 3] as int);
    assert(0 <= ((b0 * 256 + b1) * 256 + b2) * 256 + b3 <= u32::MAX) by (nonlinear_arith)
        requires 0 <= b0 < 256, 0 <= b1 < 256, 0 <= b2 < 256, 0 <= b3 < 256;
}

/// Reads a little-endian 16-bit value.
pub fn read_le16(b: &[u8], at: usize) -> (r: u16)
    requires
        at + 2 <= b@.len(),
    ensures
        r == le16(b@, at as int),
{
    (b[at] as u16) + (b[at + 1] as u16) * 256
}

/// Reads a big-endian 32-bit value.
pub fn read_be32(b: &[u8], at: usize) -> (r: u32)
    requires
        at + 4 <= b@.len(),
    ensures
        r == be32_at(b@, at as int),
{
    let (b0, b1, b2, b3) = (b[at] as u32, b[at + 1] as u32, b[at + 2] as u32, b[at + 3] as u32);
    ((b0 * 256 + b1) * 256 + b2) * 256 + b3
}

} // verus!
