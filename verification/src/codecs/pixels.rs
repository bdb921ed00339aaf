//! Turning what a decoding crate hands back into an [`Image`]: zeroed
//! buffers for it to fill, byte pairs read as 16-bit samples, and what the
//! image built from a buffer is.

use vstd::prelude::*;
use crate::error::Error;
use crate::image::{ColorType, Image, ImageView, MetaView, SampleData, data_len, new_refusal};

verus! {

/// `n` zero bytes.
pub fn zeroed_bytes(n: usize) -> (r: Vec<u8>)
    ensures
        r@.len() == n,
        forall|i: int| 0 <= i < n ==> r@[i] == 0,
{
    let mut v: Vec<u8> = Vec::new();
    let mut i: usize = 0;
    while i < n
        invariant
            i <= n,
            v@.len() == i,
            forall|j: int| 0 <= j < i ==> v@[j] == 0,
        decreases n - i,
    {
        v.push(0);
        i = i + 1;
    }
    v
}

/// Whole byte pairs read as 16-bit samples, most significant byte first;
/// an odd last byte is dropped.
pub open spec fn be16_seq(b: Seq<u8>) -> Seq<u16> {
    Seq::new(b.len() / 2, |i: int| (b[2 * i] as int * 256 + b[2 * i + 1] as int) as u16)
}

/// Whole byte pairs read as 16-bit samples, least significant byte first;
/// an odd last byte is dropped.
pub open spec fn le16_seq(b: Seq<u8>) -> Seq<u16> {
    Seq::new(b.len() / 2, |i: int| (b[2 * i + 1] as int * 256 + b[2 * i] as int) as u16)
}

/// Byte pairs as big-endian 16-bit samples.
pub fn be16_samples(b: &[u8]) -> (r: Vec<u16>)
    ensures
        r@ == be16_seq(b@),
{
    let n = b.len() / 2;
    let mut out: Vec<u16> = Vec::new();
    let mut i: usize = 0;
    while i < n
        invariant
            n == b@.len() / 2,
            b@.len() == b.len(),
            i <= n,
            out@.len() == i,
            forall|j: int| 0 <= j < i ==> out@[j] == be16_seq(b@)[j],
        decreases n - i,
    {
        let hi = b[2 * i] as u16;
        let lo = b[2 * i + 1] as u16;
        out.push(hi * 256 + lo);
        i = i + 1;
    }
    assert(out@ =~= be16_seq(b@));
    out
}

/// Byte pairs as little-endian 16-bit samples.
pub fn le16_samples(b: &[u8]) -> (r: Vec<u16>)
    ensures
        r@ == le16_seq(b@),
{
    let n = b.len() / 2;
    let mut out: Vec<u16> = Vec::new();
    let mut i: usize = 0;
    while i < n
        invariant
            n == b@.len() / 2,
            b@.len() == b.len(),
            i <= n,
            out@.len() == i,
            forall|j: int| 0 <= j < i ==> out@[j] == le16_seq(b@)[j],
        decreases n - i,
    {
        let lo = b[2 * i] as u16;
        let hi = b[2 * i + 1] as u16;
        out.push(hi * 256 + lo);
        i = i + 1;
    }
    assert(out@ =~= le16_seq(b@));
    out
}

/// What building an image of this size, layout and samples gives, with
/// `meta` beside it: the refusal of [`Image::new`], or the image.
pub open spec fn built(r: Result<Image, Error>, w: u32, h: u32, color: ColorType, samples: SampleData, meta: MetaView) -> bool {
    match new_refusal(w, h, color, data_len(samples)) {
        None => r matches Ok(img) && img@ == ImageView { width: w, height: h, color, samples, meta },
        Some(msg) => r matches Err(Error::InvalidInput(m)) && m@ == msg,
    }
}

} // verus!
