//! AVIF encoding through `libavif`: the effort scale as `libaom` speed,
//! and the chroma layout an automatic choice picks from the quality.

use vstd::prelude::*;
use crate::params::Subsampling;

verus! {

/// AVIF encoder over `libavif`.
#[derive(Debug, Clone, Copy, Default)]
pub struct LibavifEncoder;

/// Above this quality an automatic choice stops subsampling chroma.
pub const AUTO_444_THRESHOLD: u8 = 90;

/// Chroma layout of the YUV planes handed to the encoder.
#[derive(Debug, Clone, Copy, PartialEq, Eq, Structural)]
pub enum YuvFormat {
    /// Full-resolution chroma.
    Yuv444,
    /// Chroma halved horizontally.
    Yuv422,
    /// Chroma halved on both axes.
    Yuv420,
}

/// Effort `0..=10` to `libaom` speed `10..=0`: ten less the effort, never
/// below zero.
pub fn map_effort(effort: u8) -> (r: u8)
    ensures
        r == if effort >= 10 { 0 } else { 10 - effort },
{
    if effort >= 10 { 0 } else { 10 - effort }
}

/// The chroma layout for a subsampling choice at a quality.
pub open spec fn spec_yuv_format(s: Subsampling, quality: u8) -> YuvFormat {
    match s {
        Subsampling::S444 => YuvFormat::Yuv444,
        Subsampling::S422 => YuvFormat::Yuv422,
        Subsampling::Auto => if quality >= 90 { YuvFormat::Yuv444 } else { YuvFormat::Yuv420 },
        Subsampling::S420 => YuvFormat::Yuv420,
    }
}

/// The chroma layout: explicit choices as given, `Auto` full-resolution
/// from quality 90 up and halved on both axes below.
pub fn map_subsampling(s: Subsampling, quality: u8) -> (r: YuvFormat)
    ensures
        r == spec_yuv_format(s, quality),
{
    match s {
        Subsampling::S444 => YuvFormat::Yuv444,
        Subsampling::S422 => YuvFormat::Yuv422,
        Subsampling::Auto => if quality >= AUTO_444_THRESHOLD { YuvFormat::Yuv444 } else { YuvFormat::Yuv420 },
        Subsampling::S420 => YuvFormat::Yuv420,
    }
}

} // verus!
