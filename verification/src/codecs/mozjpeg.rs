//! JPEG encoding through `mozjpeg-rs`: the effort scale as an encoder
//! preset, and the chroma subsampling an automatic choice picks.

use vstd::prelude::*;
use crate::params::Subsampling;

verus! {

/// JPEG encoder over `mozjpeg-rs`.
#[derive(Debug, Clone, Copy, Default)]
pub struct MozjpegEncoder;

/// Above this quality an automatic choice stops subsampling chroma.
pub const AUTO_444_THRESHOLD: u8 = 90;

/// The encoder presets efforts map onto.
#[derive(Debug, Clone, Copy, PartialEq, Eq, Structural)]
pub enum JpegPreset {
    /// Baseline, fastest.
    BaselineFastest,
    /// Progressive, balanced.
    ProgressiveBalanced,
    /// Progressive, smallest.
    ProgressiveSmallest,
}

/// JPEG chroma subsampling.
#[derive(Debug, Clone, Copy, PartialEq, Eq, Structural)]
pub enum JpegChroma {
    /// None.
    S444,
    /// Horizontal.
    S422,
    /// Horizontal and vertical.
    S420,
}

/// Effort to preset: up to 2 baseline, up to 7 balanced, above that the
/// smallest. Progressive is the web default.
pub fn map_effort(effort: u8) -> (r: JpegPreset)
    ensures
        r == if effort <= 2 {
            JpegPreset::BaselineFastest
        } else if effort <= 7 {
            JpegPreset::ProgressiveBalanced
        } else {
            JpegPreset::ProgressiveSmallest
        },
{
    if effort <= 2 {
        JpegPreset::BaselineFastest
    } else if effort <= 7 {
        JpegPreset::ProgressiveBalanced
    } else {
        JpegPreset::ProgressiveSmallest
    }
}

/// The subsampling for a choice at a quality: explicit choices as given,
/// `Auto` none from quality 90 up and both axes below.
pub fn map_subsampling(s: Subsampling, quality: u8) -> (r: JpegChroma)
    ensures
        r == match s {
            Subsampling::S444 => JpegChroma::S444,
            Subsampling::S422 => JpegChroma::S422,
            Subsampling::Auto => if quality >= 90 { JpegChroma::S444 } else { JpegChroma::S420 },
            Subsampling::S420 => JpegChroma::S420,
        },
{
    match s {
        Subsampling::S444 => JpegChroma::S444,
        Subsampling::S422 => JpegChroma::S422,
        Subsampling::Auto => if quality >= AUTO_444_THRESHOLD { JpegChroma::S444 } else { JpegChroma::S420 },
        Subsampling::S420 => JpegChroma::S420,
    }
}

} // verus!
