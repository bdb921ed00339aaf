//! The parts of the WIC binding that do not touch Windows: how a decoded
//! buffer is packed by pixel layout, and the errors a decode can end in.
//! Which layout a WIC pixel format is, and the decode itself, belong to
//! the Windows side.

use vstd::prelude::*;
use vstd::arithmetic::div_mod::lemma_fundamental_div_mod_converse;
use crate::text::{push_str, push_decimal, decimal};
use crate::codecs::pixels::{le16_samples, le16_seq};
use crate::image::Samples;

verus! {

/// Why a decode did not happen.
#[derive(Debug, Clone, PartialEq, Eq)]
pub enum Error {
    /// WIC cannot decode HEIC on this machine; the reason the availability
    /// probe gives.
    Unavailable(String),
    /// The image is larger than the caller allows.
    TooLarge {
        /// Pixels in the image.
        pixels: u64,
        /// The caller's limit.
        limit: u64,
    },
    /// WIC refused the file; the step and the `HRESULT`.
    Decode(String),
}

/// How a binding error reads.
pub open spec fn spec_wic_message(e: Error) -> Seq<char> {
    match e {
        Error::Unavailable(r) => r@,
        Error::TooLarge { pixels, limit } => "image has "@ + decimal(pixels as nat) + " pixels, limit is "@
            + decimal(limit as nat),
        Error::Decode(m) => m@,
    }
}

impl Error {
    /// The error as prose.
    pub fn message(&self) -> (r: String)
        ensures
            r@ == spec_wic_message(*self),
    {
        let mut s = String::new();
        match self {
            Error::Unavailable(r) | Error::Decode(r) => push_str(&mut s, r.as_str()),
            Error::TooLarge { pixels, limit } => {
                push_str(&mut s, "image has ");
                push_decimal(&mut s, *pixels);
                push_str(&mut s, " pixels, limit is ");
                push_decimal(&mut s, *limit);
            },
        }
        s
    }
}

/// The first three samples of every whole four-sample pixel.
pub open spec fn without_filler<T>(rgba: Seq<T>) -> Seq<T> {
    Seq::new(((rgba.len() as int) / 4 * 3) as nat, |i: int| rgba[(i / 3) * 4 + i % 3])
}

/// Drops the fourth sample of every pixel: the filler alpha of an opaque
/// frame.
pub fn drop_alpha<T: Copy>(rgba: &[T]) -> (r: Vec<T>)
    ensures
        r@ == without_filler(rgba@),
{
    let len = rgba.len();
    let n = len / 4;
    let ghost target = without_filler(rgba@);
    let mut out: Vec<T> = Vec::new();
    let mut p: usize = 0;
    while p < n
        invariant
            len == rgba@.len(),
            n == (len as int) / 4,
            target == without_filler(rgba@),
            p <= n,
            out@ == target.subrange(0, p * 3),
        decreases n - p,
    {
        proof {
            lemma_fundamental_div_mod_converse(p * 3, 3, p as int, 0);
            lemma_fundamental_div_mod_converse(p * 3 + 1, 3, p as int, 1);
            lemma_fundamental_div_mod_converse(p * 3 + 2, 3, p as int, 2);
        }
        out.push(rgba[p * 4]);
        out.push(rgba[p * 4 + 1]);
        out.push(rgba[p * 4 + 2]);
        p = p + 1;
        assert(out@ =~= target.subrange(0, p * 3));
    }
    assert(out@ =~= target);
    out
}

/// What the frame's pixel format says about the picture.
#[derive(Debug, Clone, Copy, PartialEq, Eq, Structural)]
pub struct Layout {
    /// One gray channel.
    pub gray: bool,
    /// More than 8 bits a sample.
    pub deep: bool,
    /// An alpha channel the source really has.
    pub alpha: bool,
}

/// The WIC pixel formats a frame can report that decide its layout;
/// the program maps each `GUID_WICPixelFormat...` constant to its variant.
#[derive(Debug, Clone, Copy, PartialEq, Eq, Structural)]
pub enum WicFormat {
    /// `8bppGray`.
    Gray8,
    /// `16bppGray`.
    Gray16,
    /// `16bppGrayHalf`.
    GrayHalf16,
    /// `32bppGrayFloat`.
    GrayFloat32,
    /// `24bppBGR`.
    Bgr24,
    /// `24bppRGB`.
    Rgb24,
    /// `32bppBGR`.
    Bgr32,
    /// `32bppRGB`.
    Rgb32,
    /// `32bppBGRA`.
    Bgra32,
    /// `32bppPBGRA`.
    Pbgra32,
    /// `32bppRGBA`.
    Rgba32,
    /// `32bppPRGBA`.
    Prgba32,
    /// `48bppRGB`.
    Rgb48,
    /// `48bppBGR`.
    Bgr48,
    /// `48bppRGBHalf`.
    RgbHalf48,
    /// `64bppRGB`.
    Rgb64,
    /// `64bppRGBA`.
    Rgba64,
    /// `64bppBGRA`.
    Bgra64,
    /// `64bppPRGBA`.
    Prgba64,
    /// `64bppPBGRA`.
    Pbgra64,
    /// `64bppRGBAHalf`.
    RgbaHalf64,
    /// `32bppRGBA1010102`.
    Rgba1010102,
    /// `32bppRGBA1010102XR`.
    Rgba1010102Xr,
    /// `32bppR10G10B10A2`.
    R10G10B10A2,
    /// `32bppR10G10B10A2HDR10`.
    R10G10B10A2Hdr10,
    /// `32bppBGR101010`.
    Bgr101010,
    /// `128bppRGBFloat`.
    RgbFloat128,
    /// `128bppRGBAFloat`.
    RgbaFloat128,
    /// `128bppPRGBAFloat`.
    PrgbaFloat128,
    /// Any other format.
    Other,
}

/// One gray channel.
pub open spec fn wic_gray(f: WicFormat) -> bool {
    matches!(f, WicFormat::Gray8 | WicFormat::Gray16 | WicFormat::GrayHalf16 | WicFormat::GrayFloat32)
}

/// More than 8 bits a sample.
pub open spec fn wic_deep(f: WicFormat) -> bool {
    matches!(f, WicFormat::Gray16 | WicFormat::GrayHalf16 | WicFormat::GrayFloat32 | WicFormat::Rgb48 | WicFormat::Bgr48 | WicFormat::RgbHalf48 | WicFormat::Rgb64 | WicFormat::Rgba64 | WicFormat::Bgra64 | WicFormat::Prgba64 | WicFormat::Pbgra64 | WicFormat::RgbaHalf64 | WicFormat::Rgba1010102 | WicFormat::Rgba1010102Xr | WicFormat::R10G10B10A2 | WicFormat::R10G10B10A2Hdr10 | WicFormat::Bgr101010 | WicFormat::RgbFloat128 | WicFormat::RgbaFloat128 | WicFormat::PrgbaFloat128)
}

/// No alpha channel in the source.
pub open spec fn wic_opaque(f: WicFormat) -> bool {
    matches!(f, WicFormat::Gray8 | WicFormat::Gray16 | WicFormat::GrayHalf16 | WicFormat::GrayFloat32 | WicFormat::Bgr24 | WicFormat::Rgb24 | WicFormat::Bgr32 | WicFormat::Rgb32 | WicFormat::Rgb48 | WicFormat::Bgr48 | WicFormat::RgbHalf48 | WicFormat::Rgb64 | WicFormat::Bgr101010 | WicFormat::RgbFloat128)
}

/// 8 bits a sample.
pub open spec fn wic_eight_bit(f: WicFormat) -> bool {
    matches!(f, WicFormat::Gray8 | WicFormat::Bgr24 | WicFormat::Rgb24 | WicFormat::Bgr32 | WicFormat::Rgb32 | WicFormat::Bgra32 | WicFormat::Pbgra32 | WicFormat::Rgba32 | WicFormat::Prgba32)
}

impl Layout {
    /// Classifies a WIC pixel format. Unknown formats are taken as 8-bit
    /// RGBA, which every converter can produce.
    pub fn of(format: WicFormat) -> (r: Layout)
        ensures
            r.gray == wic_gray(format),
            r.deep == wic_deep(format),
            r.alpha == !wic_opaque(format),
            !(wic_eight_bit(format) && r.deep),
    {
        let gray = matches!(format, WicFormat::Gray8 | WicFormat::Gray16 | WicFormat::GrayHalf16 | WicFormat::GrayFloat32);
        let deep = matches!(format, WicFormat::Gray16 | WicFormat::GrayHalf16 | WicFormat::GrayFloat32 | WicFormat::Rgb48 | WicFormat::Bgr48 | WicFormat::RgbHalf48 | WicFormat::Rgb64 | WicFormat::Rgba64 | WicFormat::Bgra64 | WicFormat::Prgba64 | WicFormat::Pbgra64 | WicFormat::RgbaHalf64 | WicFormat::Rgba1010102 | WicFormat::Rgba1010102Xr | WicFormat::R10G10B10A2 | WicFormat::R10G10B10A2Hdr10 | WicFormat::Bgr101010 | WicFormat::RgbFloat128 | WicFormat::RgbaFloat128 | WicFormat::PrgbaFloat128);
        let opaque = matches!(format, WicFormat::Gray8 | WicFormat::Gray16 | WicFormat::GrayHalf16 | WicFormat::GrayFloat32 | WicFormat::Bgr24 | WicFormat::Rgb24 | WicFormat::Bgr32 | WicFormat::Rgb32 | WicFormat::Rgb48 | WicFormat::Bgr48 | WicFormat::RgbHalf48 | WicFormat::Rgb64 | WicFormat::Bgr101010 | WicFormat::RgbFloat128);
        Layout { gray, deep, alpha: !opaque }
    }
}

/// A decoded frame.
#[derive(Debug)]
pub struct Raw {
    /// Width in pixels.
    pub width: u32,
    /// Height in pixels.
    pub height: u32,
    /// 1 gray, 3 RGB, 4 RGBA.
    pub channels: u8,
    /// The samples.
    pub samples: Samples,
}

/// Samples a pixel for a layout: one for gray, four with alpha, else
/// three.
pub open spec fn layout_channels(l: Layout) -> u8 {
    if l.gray { 1 } else if l.alpha { 4 } else { 3 }
}

/// The converter's buffer as samples: little-endian 16-bit samples for a
/// deep layout, bytes otherwise, with the filler alpha dropped from an
/// opaque colour frame.
pub open spec fn packed_samples(l: Layout, buffer: Seq<u8>) -> (bool, Seq<u8>, Seq<u16>) {
    if l.deep {
        let wide = le16_seq(buffer);
        (true, Seq::empty(), if layout_channels(l) == 3 { without_filler(wide) } else { wide })
    } else {
        (false, if layout_channels(l) == 3 { without_filler(buffer) } else { buffer }, Seq::empty())
    }
}

/// Turns the converter's buffer into a frame.
pub fn pack(width: u32, height: u32, layout: Layout, buffer: Vec<u8>) -> (r: Raw)
    ensures
        r.width == width,
        r.height == height,
        r.channels == layout_channels(layout),
        match r.samples {
            Samples::U8(v) => !packed_samples(layout, buffer@).0 && v@ == packed_samples(layout, buffer@).1,
            Samples::U16(v) => packed_samples(layout, buffer@).0 && v@ == packed_samples(layout, buffer@).2,
            Samples::F32(_) => false,
        },
{
    let channels: u8 = if layout.gray { 1 } else if layout.alpha { 4 } else { 3 };
    let samples = if layout.deep {
        let wide = le16_samples(buffer.as_slice());
        Samples::U16(if channels == 3 { drop_alpha(wide.as_slice()) } else { wide })
    } else {
        Samples::U8(if channels == 3 { drop_alpha(buffer.as_slice()) } else { buffer })
    };
    Raw { width, height, channels, samples }
}

} // verus!
