//! The parts of the ImageIO binding that do not touch macOS: the size
//! checks on what ImageIO reports, the bitmap context a decoded image is
//! drawn into, how the drawn buffer becomes a frame, and the errors a
//! decode can end in.

use vstd::prelude::*;
use crate::text::{push_str, push_decimal, decimal};
use crate::heif_wic::{drop_alpha, without_filler};
use crate::image::Samples;

verus! {

/// Why a decode did not happen.
#[derive(Debug, Clone, PartialEq, Eq)]
pub enum Error {
    /// ImageIO on this macOS has no HEIC decoder; the reason the
    /// availability probe gives.
    Unavailable(String),
    /// The image is larger than the caller allows.
    TooLarge {
        /// Pixels in the image.
        pixels: u64,
        /// The caller's limit.
        limit: u64,
    },
    /// ImageIO or Quartz refused the file.
    Decode(String),
}

/// How a binding error reads.
pub open spec fn spec_imageio_message(e: Error) -> Seq<char> {
    match e {
        Error::Unavailable(r) => r@,
        Error::TooLarge { pixels, limit } => "image has "@ + decimal(pixels as nat) + " pixels, limit is "@
            + decimal(limit as nat),
        Error::Decode(m) => m@,
    }
}

impl Error {
    /// The error as prose.
    pub fn message(&self) -> (r: String)
        ensures
            r@ == spec_imageio_message(*self),
    {
        let mut s = String::new();
        match self {
            Error::Unavailable(r) | Error::Decode(r) => push_str(&mut s, r.as_str()),
            Error::TooLarge { pixels, limit } => {
                push_str(&mut s, "image has ");
                push_decimal(&mut s, *pixels);
                push_str(&mut s, " pixels, limit is ");
                push_decimal(&mut s, *limit);
            },
        }
        s
    }
}

/// Checks the size ImageIO reports.
///
/// # Errors
/// `Decode` for a side past 32 bits or an empty image, `TooLarge` past
/// the limit.
pub fn check_size(width: usize, height: usize, max_pixels: u64) -> (r: Result<(u32, u32), Error>)
    ensures
        (width > u32::MAX || height > u32::MAX) ==> (r matches Err(Error::Decode(m)) && m@ == "ImageIO reported an oversized image"@),
        (width <= u32::MAX && height <= u32::MAX && (width == 0 || height == 0)) ==> (r matches Err(Error::Decode(m)) && m@ == "ImageIO reported an empty image"@),
        (width <= u32::MAX && height <= u32::MAX && width > 0 && height > 0) ==> (
            if width * height > max_pixels {
                r matches Err(Error::TooLarge { pixels, limit }) && pixels == width * height && limit == max_pixels
            } else {
                r == Ok::<(u32, u32), Error>((width as u32, height as u32))
            }),
{
    if width > 0xffff_ffff || height > 0xffff_ffff {
        let mut m = String::new();
        push_str(&mut m, "ImageIO reported an oversized image");
        return Err(Error::Decode(m));
    }
    let (w, h) = (width as u32, height as u32);
    if w == 0 || h == 0 {
        let mut m = String::new();
        push_str(&mut m, "ImageIO reported an empty image");
        return Err(Error::Decode(m));
    }
    proof {
        assert(w * h <= u32::MAX * u32::MAX) by (nonlinear_arith)
            requires w <= u32::MAX, h <= u32::MAX;
    }
    let pixels = (w as u64) * (h as u64);
    if pixels > max_pixels {
        return Err(Error::TooLarge { pixels, limit: max_pixels });
    }
    Ok((w, h))
}

/// The bitmap context an image is drawn into.
#[derive(Debug, Clone, Copy, PartialEq, Eq, Structural)]
pub struct ContextPlan {
    /// A one-channel gray context: a monochrome image without alpha.
    pub gray: bool,
    /// Draw in the device RGB space, because the image's own space is
    /// neither gray nor RGB.
    pub device_rgb: bool,
    /// `CGImageAlphaInfo`: none for gray, premultiplied last with alpha,
    /// none-skip-last otherwise.
    pub alpha_info: u32,
    /// `CGImageByteOrderInfo`: 16-bit little-endian for deep images, the
    /// default otherwise.
    pub byte_order: u32,
    /// Channels in the context: one for gray, four otherwise.
    pub channels: usize,
    /// Bits per component: 16 for deep images, 8 otherwise.
    pub bits: usize,
    /// Bytes a row.
    pub bytes_per_row: usize,
}

/// The context for an image of this width, alpha, depth and colour model.
pub open spec fn spec_plan(width: usize, alpha: bool, deep: bool, monochrome: bool, rgb: bool) -> ContextPlan {
    let gray = monochrome && !alpha;
    let channels: usize = if gray { 1 } else { 4 };
    let bits: usize = if deep { 16 } else { 8 };
    ContextPlan {
        gray,
        device_rgb: !gray && !rgb,
        alpha_info: if gray { 0 } else if alpha { 1 } else { 5 },
        byte_order: if deep { 4096 } else { 0 },
        channels,
        bits,
        bytes_per_row: (width * channels * bits / 8) as usize,
    }
}

/// Plans the bitmap context.
pub fn plan_context(width: usize, alpha: bool, deep: bool, monochrome: bool, rgb: bool) -> (r: ContextPlan)
    requires
        width <= u32::MAX,
    ensures
        r == spec_plan(width, alpha, deep, monochrome, rgb),
{
    let gray = monochrome && !alpha;
    let channels: usize = if gray { 1 } else { 4 };
    let bits: usize = if deep { 16 } else { 8 };
    proof {
        assert(width * channels * bits <= u32::MAX * 4 * 16) by (nonlinear_arith)
            requires width <= u32::MAX, channels <= 4, bits <= 16;
    }
    ContextPlan {
        gray,
        device_rgb: !gray && !rgb,
        alpha_info: if gray { 0 } else if alpha { 1 } else { 5 },
        byte_order: if deep { 4096 } else { 0 },
        channels,
        bits,
        bytes_per_row: ((width as u64) * (channels as u64) * (bits as u64) / 8) as usize,
    }
}

/// A decoded frame.
#[derive(Debug)]
pub struct Raw {
    /// Width in pixels.
    pub width: u32,
    /// Height in pixels.
    pub height: u32,
    /// 1 gray, 3 RGB, 4 RGBA.
    pub channels: u8,
    /// The samples.
    pub samples: Samples,
    /// Whether the colour samples are premultiplied by alpha.
    pub premultiplied: bool,
}

/// RGBX to RGB: the skipped fourth sample of an opaque context dropped.
pub fn drop_filler(samples: Samples) -> (r: Samples)
    ensures
        match (samples, r) {
            (Samples::U8(a), Samples::U8(b)) => b@ == without_filler(a@),
            (Samples::U16(a), Samples::U16(b)) => b@ == without_filler(a@),
            (Samples::F32(a), Samples::F32(b)) => b@ == without_filler(a@),
            _ => false,
        },
{
    match samples {
        Samples::U8(v) => Samples::U8(drop_alpha(v.as_slice())),
        Samples::U16(v) => Samples::U16(drop_alpha(v.as_slice())),
        Samples::F32(v) => Samples::F32(drop_alpha(v.as_slice())),
    }
}

/// The frame a drawn buffer becomes: gray as drawn, RGBA as drawn and
/// premultiplied, RGB with the filler dropped.
pub fn frame_of(width: u32, height: u32, gray: bool, alpha: bool, buffer: Samples) -> (r: Raw)
    ensures
        r.width == width && r.height == height && r.premultiplied == alpha,
        r.channels == (if gray { 1u8 } else if alpha { 4u8 } else { 3u8 }),
        (gray || alpha) ==> r.samples == buffer,
        (!gray && !alpha) ==> match (buffer, r.samples) {
            (Samples::U8(a), Samples::U8(b)) => b@ == without_filler(a@),
            (Samples::U16(a), Samples::U16(b)) => b@ == without_filler(a@),
            (Samples::F32(a), Samples::F32(b)) => b@ == without_filler(a@),
            _ => false,
        },
{
    if gray {
        Raw { width, height, channels: 1, samples: buffer, premultiplied: alpha }
    } else if alpha {
        Raw { width, height, channels: 4, samples: buffer, premultiplied: alpha }
    } else {
        Raw { width, height, channels: 3, samples: drop_filler(buffer), premultiplied: alpha }
    }
}

} // verus!
