//! JPEG encoding through `jpegli`: chroma subsampling as the pixel size of
//! Cb and Cr per luma pixel.

use vstd::prelude::*;
use crate::params::Subsampling;

verus! {

/// JPEG encoder over `jpegli`.
#[derive(Debug, Clone, Copy, Default)]
pub struct JpegliEncoder;

/// Above this quality an automatic choice stops subsampling chroma.
pub const AUTO_444_THRESHOLD: u8 = 90;

/// Chroma pixel size per luma pixel, horizontally and vertically.
pub open spec fn spec_jpegli_subsampling(s: Subsampling, quality: u8) -> (u8, u8) {
    match s {
        Subsampling::S444 => (1, 1),
        Subsampling::S422 => (2, 1),
        Subsampling::Auto => if quality >= 90 { (1, 1) } else { (2, 2) },
        Subsampling::S420 => (2, 2),
    }
}

/// The chroma pixel size for a subsampling choice at a quality.
pub fn map_subsampling(s: Subsampling, quality: u8) -> (r: (u8, u8))
    ensures
        r == spec_jpegli_subsampling(s, quality),
{
    match s {
        Subsampling::S444 => (1, 1),
        Subsampling::S422 => (2, 1),
        Subsampling::Auto => if quality >= AUTO_444_THRESHOLD { (1, 1) } else { (2, 2) },
        Subsampling::S420 => (2, 2),
    }
}

} // verus!
