//! JPEG XL sniffing and header reading: the bare codestream and container
//! signatures, and the image header `jxl-oxide` parses from the first
//! chunks of the file, fed a piece at a time so probing a large file does
//! not copy all of it.

use vstd::prelude::*;
use crate::error::Error;
use crate::format::{Format, FormatInfo, DecoderCaps, Tier};
use crate::image::{ColorType, Image, Samples};
use crate::params::DecodeOpts;
use crate::text::{push_decimal, push_str};
use jxl_oxide::{JxlImage, UninitializedJxlImage, InitializeResult, JxlThreadPool, Render};

verus! {

/// How much to feed the header parser per step.
pub const CHUNK: usize = 4096;

/// The bare codestream signature `FF 0A`.
pub open spec fn codestream_sig() -> Seq<u8> {
    seq![0xFFu8, 0x0A]
}

/// The container signature: a twelve-byte `JXL ` box.
pub open spec fn container_sig() -> Seq<u8> {
    seq![0x00u8, 0x00, 0x00, 0x0C, 0x4A, 0x58, 0x4C, 0x20, 0x0D, 0x0A, 0x87, 0x0A]
}

/// Either signature.
pub open spec fn spec_is_jxl(b: Seq<u8>) -> bool {
    crate::bytes::starts_with(b, codestream_sig()) || crate::bytes::starts_with(b, container_sig())
}

/// A JPEG XL image whose header has been read.
#[verifier::external_type_specification]
#[verifier::external_body]
pub struct ExJxlImage(JxlImage);

/// A JPEG XL decoder still waiting for its header.
#[verifier::external_type_specification]
#[verifier::external_body]
pub struct ExUninitializedJxlImage(UninitializedJxlImage);

/// What one attempt to read the header gives.
pub enum HeaderStep {
    /// The header is read.
    Ready(JxlImage),
    /// More bytes are needed.
    NeedMore(UninitializedJxlImage),
}

/// `JxlImage::builder().pool(JxlThreadPool::none()).build_uninit()`: a
/// fresh single-threaded decoder.
#[verifier::external_body]
fn start() -> UninitializedJxlImage {
    JxlImage::builder().pool(JxlThreadPool::none()).build_uninit()
}

/// `UninitializedJxlImage::feed_bytes`: the bytes of `buf` it consumed,
/// never more than `buf` holds (the count it returns is reset on every
/// call and grows by what the parser took from `buf`), or the error's
/// message. Which bytes it takes is not stated.
#[verifier::external_body]
fn feed(u: &mut UninitializedJxlImage, buf: &[u8]) -> (r: Result<usize, String>)
    ensures
        r matches Ok(c) ==> c <= buf@.len(),
{
    u.feed_bytes(buf).map_err(|e| e.to_string())
}

/// `UninitializedJxlImage::try_init`: the image once the header is in,
/// the decoder back when more bytes are needed, or the error's message.
/// Which of these comes is not stated.
#[verifier::external_body]
fn try_init(u: UninitializedJxlImage) -> (r: Result<HeaderStep, String>) {
    match u.try_init() {
        Ok(InitializeResult::Initialized(image)) => Ok(HeaderStep::Ready(image)),
        Ok(InitializeResult::NeedMoreData(more)) => Ok(HeaderStep::NeedMore(more)),
        Err(e) => Err(e.to_string()),
    }
}

/// `JxlImage::width`, `JxlImage::height`, and whether the image header's
/// metadata has an animation header. Nothing about the values is stated.
#[verifier::external_body]
fn header_info(image: &JxlImage) -> (r: (u32, u32, bool)) {
    (image.width(), image.height(), image.image_header().metadata.animation.is_some())
}

/// Parses the image header without touching frame data: the initialised
/// decoder and how many input bytes it consumed, or a `Codec` error. The
/// bytes are fed a chunk at a time; input that ends before the header is
/// complete is "truncated before the image header".
pub fn parse_header(bytes: &[u8]) -> (r: Result<(JxlImage, usize), Error>)
    ensures
        r matches Ok((_, pos)) ==> pos <= bytes@.len(),
        r matches Err(e) ==> e is Codec,
{
    let n = bytes.len();
    let mut uninit = start();
    let mut pos: usize = 0;
    let mut end: usize = if CHUNK < n { CHUNK } else { n };
    loop
        invariant
            n == bytes@.len(),
            pos <= end <= n,
        decreases (n - end) + (n - pos),
    {
        let consumed = match feed(&mut uninit, vstd::slice::slice_subrange(bytes, pos, end)) {
            Ok(c) => c,
            Err(m) => return Err(Error::Codec(m)),
        };
        pos = pos + consumed;
        match try_init(uninit) {
            Ok(HeaderStep::Ready(image)) => return Ok((image, pos)),
            Ok(HeaderStep::NeedMore(more)) => uninit = more,
            Err(m) => return Err(Error::Codec(m)),
        }
        if end == n && consumed == 0 {
            let mut m = String::new();
            push_str(&mut m, "truncated before the image header");
            return Err(Error::Codec(m));
        }
        end = if n - end > CHUNK { end + CHUNK } else { n };
    }
}

/// A rendered JPEG XL frame.
#[verifier::external_type_specification]
#[verifier::external_body]
pub struct ExRender(Render);

/// `JxlImage::pixel_format` as a code (`0` gray, `1` gray with alpha,
/// `2` RGB, `3` RGBA, `4` CMYK, `5` CMYK with alpha), whether
/// `original_icc` is there, the metadata's `xyb_encoded` flag, and its bit
/// depth's bits per sample when samples are integers (`None` for float
/// samples). Nothing about the values is stated.
#[verifier::external_body]
fn pixel_info(image: &JxlImage) -> (r: (u8, bool, bool, Option<u32>)) {
    let code = match image.pixel_format() {
        jxl_oxide::PixelFormat::Gray => 0,
        jxl_oxide::PixelFormat::Graya => 1,
        jxl_oxide::PixelFormat::Rgb => 2,
        jxl_oxide::PixelFormat::Rgba => 3,
        jxl_oxide::PixelFormat::Cmyk => 4,
        jxl_oxide::PixelFormat::Cmyka => 5,
    };
    let m = &image.image_header().metadata;
    let bits = match m.bit_depth {
        jxl_oxide::image::BitDepth::IntegerSample { bits_per_sample } => Some(bits_per_sample),
        jxl_oxide::image::BitDepth::FloatSample { .. } => None,
    };
    (code, image.original_icc().is_some(), m.xyb_encoded, bits)
}

/// `JxlImage::request_color_encoding` with sRGB, or gray sRGB when `gray`
/// holds, at the relative rendering intent.
#[verifier::external_body]
fn request_srgb(image: &mut JxlImage, gray: bool) {
    let intent = jxl_oxide::color::RenderingIntent::Relative;
    image.request_color_encoding(if gray {
        jxl_oxide::color::EnumColourEncoding::gray_srgb(intent)
    } else {
        jxl_oxide::color::EnumColourEncoding::srgb(intent)
    });
}

/// `JxlImage::feed_bytes`: how many bytes of `buf` it consumed, never more
/// than `buf` holds, or the error's message.
#[verifier::external_body]
fn feed_frames(image: &mut JxlImage, buf: &[u8]) -> (r: Result<usize, String>)
    ensures
        r matches Ok(c) ==> c <= buf@.len(),
{
    image.feed_bytes(buf).map_err(|e| e.to_string())
}

/// `JxlImage::is_loading_done`. Nothing about the value is stated.
#[verifier::external_body]
fn loading_done(image: &JxlImage) -> bool {
    image.is_loading_done()
}

/// `JxlImage::finalize`, or the error's message.
#[verifier::external_body]
fn finish_loading(image: &mut JxlImage) -> (r: Result<(), String>) {
    image.finalize().map_err(|e| e.to_string())
}

/// `JxlImage::render_frame(0)`, or the error's message.
#[verifier::external_body]
fn render_first(image: &JxlImage) -> (r: Result<Render, String>) {
    image.render_frame(0).map_err(|e| e.to_string())
}

/// The width, height and channel count of `Render::stream`. Nothing about
/// the values is stated.
#[verifier::external_body]
fn stream_shape(render: &Render) -> (r: (u32, u32, u32)) {
    let s = render.stream();
    (s.width(), s.height(), s.channels())
}

/// `ImageStream::write_to_buffer` of a fresh `Render::stream` into 8-bit
/// samples. What it writes is not stated; the buffer keeps its length.
#[verifier::external_body]
fn write_u8(render: &Render, buf: &mut Vec<u8>)
    ensures
        final(buf)@.len() == old(buf)@.len(),
{
    render.stream().write_to_buffer(buf.as_mut_slice());
}

/// `ImageStream::write_to_buffer` of a fresh `Render::stream` into 16-bit
/// samples. What it writes is not stated; the buffer keeps its length.
#[verifier::external_body]
fn write_u16(render: &Render, buf: &mut Vec<u16>)
    ensures
        final(buf)@.len() == old(buf)@.len(),
{
    render.stream().write_to_buffer(buf.as_mut_slice());
}

/// `JxlImage::original_icc`, copied. Nothing about it is stated.
#[verifier::external_body]
fn original_icc(image: &JxlImage) -> (r: Option<Vec<u8>>) {
    image.original_icc().map(|b| b.to_vec())
}

/// `n` zero 16-bit samples.
fn zeroed_u16(n: usize) -> (r: Vec<u16>)
    ensures
        r@.len() == n,
{
    let mut v: Vec<u16> = Vec::new();
    let mut i: usize = 0;
    while i < n
        invariant
            i <= n,
            v@.len() == i,
        decreases n - i,
    {
        v.push(0);
        i = i + 1;
    }
    v
}

/// The layout for a pixel format code without black.
pub open spec fn jxl_color(code: u8) -> ColorType {
    if code == 0 {
        ColorType::Gray
    } else if code == 1 {
        ColorType::GrayAlpha
    } else if code == 2 {
        ColorType::Rgb
    } else {
        ColorType::Rgba
    }
}

/// What a JPEG XL image becomes, from its pixel format code, whether it
/// carries its own ICC profile, whether it is XYB-encoded and its integer
/// bits per sample (`None` for float samples): CMYK is refused; otherwise
/// the layout, whether the profile is kept (it is, unless the image is
/// XYB-encoded), and whether samples are 16-bit (above 8 bits, or float).
pub open spec fn spec_jxl_layout(code: u8, has_icc: bool, xyb: bool, bits: Option<u32>) -> Result<(ColorType, bool, bool), Seq<char>> {
    if code == 4 || code == 5 {
        Err("CMYK JPEG XL is not supported"@)
    } else {
        Ok((jxl_color(code), has_icc && !xyb, match bits {
            Some(b) => b > 8,
            None => true,
        }))
    }
}

/// The layout, profile and sample width a JPEG XL image decodes to.
///
/// # Errors
/// `Codec` for CMYK.
pub fn jxl_layout(code: u8, has_icc: bool, xyb: bool, bits: Option<u32>) -> (r: Result<(ColorType, bool, bool), Error>)
    ensures
        match spec_jxl_layout(code, has_icc, xyb, bits) {
            Ok(v) => r == Ok::<(ColorType, bool, bool), Error>(v),
            Err(m) => r matches Err(Error::Codec(s)) && s@ == m,
        },
{
    if code == 4 || code == 5 {
        let mut m = String::new();
        push_str(&mut m, "CMYK JPEG XL is not supported");
        return Err(Error::Codec(m));
    }
    let color = if code == 0 {
        ColorType::Gray
    } else if code == 1 {
        ColorType::GrayAlpha
    } else if code == 2 {
        ColorType::Rgb
    } else {
        ColorType::Rgba
    };
    let wide = match bits {
        Some(b) => b > 8,
        None => true,
    };
    Ok((color, has_icc && !xyb, wide))
}

/// JPEG XL decoder.
#[derive(Debug, Clone, Copy, Default)]
pub struct JxlDecoder;

impl JxlDecoder {
    /// What this decoder is.
    pub fn caps(&self) -> (r: DecoderCaps)
        ensures
            r.format == Format::Jxl && !r.animation && r.tier == Tier::Portable,
    {
        DecoderCaps { format: Format::Jxl, name: "jxl-oxide", animation: false, tier: Tier::Portable }
    }

    /// Either signature claims the format; the header, when it parses,
    /// decides animation.
    pub fn probe(&self, bytes: &[u8]) -> (r: Option<FormatInfo>)
        ensures
            r.is_some() == spec_is_jxl(bytes@),
            r matches Some(info) ==> info.format == Format::Jxl,
    {
        let sig: [u8; 2] = [0xFF, 0x0A];
        let box_sig: [u8; 12] = [0x00, 0x00, 0x00, 0x0C, 0x4A, 0x58, 0x4C, 0x20, 0x0D, 0x0A, 0x87, 0x0A];
        assert(sig@ == codestream_sig());
        assert(box_sig@ == container_sig());
        if !(crate::bytes::has_prefix(bytes, &sig) || crate::bytes::has_prefix(bytes, &box_sig)) {
            return None;
        }
        let animated = match parse_header(bytes) {
            Ok((image, _)) => header_info(&image).2,
            Err(_) => false,
        };
        Some(FormatInfo { format: Format::Jxl, animated })
    }

    /// Width and height from the image header; `None` when it does not
    /// parse.
    pub fn dimensions(&self, bytes: &[u8]) -> (r: Option<(u32, u32)>)
        ensures
            r.is_some() ==> spec_is_jxl(bytes@),
    {
        if self.probe(bytes).is_none() {
            return None;
        }
        match parse_header(bytes) {
            Ok((image, _)) => {
                let (w, h, _) = header_info(&image);
                Some((w, h))
            },
            Err(_) => None,
        }
    }

    /// Decodes the first keyframe: 8-bit sources to 8-bit samples, deeper
    /// ones and float samples to 16 bits. An image with its own ICC
    /// profile keeps it and its colour space; anything else, XYB-encoded
    /// files among them, is rendered to sRGB (gray sRGB for gray) without a
    /// profile. The codestream's orientation is applied by the backend.
    ///
    /// # Errors
    /// The backend's messages as `Codec`, CMYK as `Codec`, `TooLarge`
    /// above the pixel limit.
    pub fn decode(&self, bytes: &[u8], opts: &DecodeOpts) -> (r: Result<Image, Error>)
        ensures
            r matches Ok(img) ==> !(img@.samples is F32) && img@.meta.exif is None && img@.meta.xmp is None,
            r matches Err(e) ==> e is Codec || e is TooLarge || e is InvalidInput,
    {
        let (mut image, mut pos) = match parse_header(bytes) {
            Ok(v) => v,
            Err(e) => return Err(e),
        };
        let (width, height, _) = header_info(&image);
        match opts.check_pixels(width, height) {
            Ok(()) => {},
            Err(e) => return Err(e),
        }
        let (code, has_icc, xyb, bits) = pixel_info(&image);
        let (color, keep_icc, wide) = match jxl_layout(code, has_icc, xyb, bits) {
            Ok(v) => v,
            Err(e) => return Err(e),
        };
        if !keep_icc {
            request_srgb(&mut image, code <= 1);
        }
        let n = bytes.len();
        while pos < n && !loading_done(&image)
            invariant
                n == bytes@.len(),
                pos <= n,
            decreases n - pos,
        {
            let consumed = match feed_frames(&mut image, vstd::slice::slice_subrange(bytes, pos, n)) {
                Ok(c) => c,
                Err(m) => return Err(Error::Codec(m)),
            };
            if consumed == 0 {
                break;
            }
            pos = pos + consumed;
        }
        match finish_loading(&mut image) {
            Ok(()) => {},
            Err(m) => return Err(Error::Codec(m)),
        }
        let render = match render_first(&image) {
            Ok(r) => r,
            Err(m) => return Err(Error::Codec(m)),
        };
        let (rw, rh, channels) = stream_shape(&render);
        if channels as usize != color.channels() {
            let mut m = String::new();
            push_str(&mut m, "rendered ");
            push_decimal(&mut m, channels as u64);
            push_str(&mut m, " channels for ");
            push_str(&mut m, crate::image::color_name(color));
            return Err(Error::Codec(m));
        }
        let len = match (rw as usize).checked_mul(rh as usize) {
            Some(px) => px.checked_mul(channels as usize),
            None => None,
        };
        let len = match len {
            Some(l) => l,
            None => {
                let mut m = String::new();
                push_str(&mut m, "output buffer size overflow");
                return Err(Error::Codec(m));
            },
        };
        let samples = if wide {
            let mut buf = zeroed_u16(len);
            write_u16(&render, &mut buf);
            Samples::U16(buf)
        } else {
            let mut buf = crate::codecs::pixels::zeroed_bytes(len);
            write_u8(&render, &mut buf);
            Samples::U8(buf)
        };
        let icc = if keep_icc { original_icc(&image) } else { None };
        match Image::new(rw, rh, color, samples) {
            Ok(img) => Ok(img.with_icc(icc)),
            Err(e) => Err(e),
        }
    }
}

} // verus!
