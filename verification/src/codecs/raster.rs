//! Header checks for the simple raster containers: BMP, ICO, QOI and PNM
//! have magic bytes; TGA has none, so its check is a plausibility test of
//! the header fields.

use vstd::prelude::*;
use crate::bytes::{starts_with, ends_with, le16, read_le16, has_prefix, has_suffix};
use crate::text::{is_ascii_ws_byte, push_str};
use crate::codecs::pixels::{built, zeroed_bytes};
use crate::error::Error;
use crate::image::{ColorType, Image, MetaView, SampleData, Samples, blob_view};
use crate::params::DecodeOpts;
use std::io::Cursor;
use image::{ImageDecoder, ImageFormat, ImageReader};
use image::ColorType::{L8, La8, Rgb8, Rgba8, L16, La16, Rgb16, Rgba16};

verus! {

/// BMP: the file header (14 bytes) plus the smallest info header (12),
/// starting `BM`.
pub open spec fn spec_is_bmp(b: Seq<u8>) -> bool {
    b.len() >= 26 && starts_with(b, seq![0x42u8, 0x4D])
}

/// ICO and CUR: reserved zero, type 1 (icon) or 2 (cursor), at least one
/// entry.
pub open spec fn spec_is_ico(b: Seq<u8>) -> bool {
    b.len() >= 22 && b[0] == 0 && b[1] == 0 && (b[2] == 1 || b[2] == 2) && b[3] == 0 && le16(b, 4) > 0
}

/// QOI: at least a header, starting `qoif`.
pub open spec fn spec_is_qoi(b: Seq<u8>) -> bool {
    b.len() >= 14 && starts_with(b, seq![0x71u8, 0x6F, 0x69, 0x66])
}

/// PNM: `P1` to `P7` followed by white space or a comment.
pub open spec fn spec_is_pnm(b: Seq<u8>) -> bool {
    b.len() >= 3 && b[0] == 0x50 && 0x31 <= b[1] <= 0x37 && (is_ascii_ws_byte(b[2]) || b[2] == 0x23)
}

/// The TGA 2.0 footer signature, `TRUEVISION-XFILE.` and a NUL.
pub open spec fn tga_footer() -> Seq<u8> {
    seq![0x54u8, 0x52, 0x55, 0x45, 0x56, 0x49, 0x53, 0x49, 0x4F, 0x4E, 0x2D, 0x58, 0x46, 0x49, 0x4C, 0x45, 0x2E, 0x00]
}

/// Whether a TGA header's fields agree with each other: the image type,
/// whether it says a colour map follows, the bits per pixel that type
/// allows, a non-empty size and a sane descriptor.
pub open spec fn tga_header_ok(b: Seq<u8>) -> bool {
    let cmap_type = b[1];
    let image_type = b[2];
    let cmap_len = le16(b, 5);
    let cmap_depth = b[7];
    let width = le16(b, 12);
    let height = le16(b, 14);
    let bpp = b[16];
    let descriptor = b[17];
    let known = image_type == 1 || image_type == 9 || image_type == 2 || image_type == 3 || image_type == 10
        || image_type == 11;
    let mapped = image_type == 1 || image_type == 9;
    let bpp_ok = if image_type == 1 || image_type == 9 || image_type == 3 || image_type == 11 {
        bpp == 8 || bpp == 16
    } else {
        bpp == 15 || bpp == 16 || bpp == 24 || bpp == 32
    };
    &&& known
    &&& bpp_ok
    &&& width != 0
    &&& height != 0
    &&& descriptor < 0x40
    &&& descriptor % 16 <= 8
    &&& cmap_type <= 1
    &&& mapped == (cmap_type == 1)
    &&& (cmap_type == 1 ==> cmap_len != 0 && (cmap_depth == 15 || cmap_depth == 16 || cmap_depth == 24
        || cmap_depth == 32))
    &&& (cmap_type == 0 ==> cmap_len == 0)
}

/// Bytes an uncompressed TGA needs: header, image ID, colour map, pixels.
pub open spec fn tga_needed(b: Seq<u8>) -> int {
    let cmap_bytes = if b[1] == 1 { le16(b, 5) * ((b[7] + 7) / 8) } else { 0 };
    18 + b[0] + cmap_bytes + le16(b, 12) * le16(b, 14) * ((b[16] + 7) / 8)
}

/// TGA: a footer settles it; otherwise the header must be plausible, and
/// an uncompressed file at least as long as its pixel data.
pub open spec fn spec_is_tga(b: Seq<u8>) -> bool {
    if b.len() < 18 {
        false
    } else if ends_with(b, tga_footer()) {
        true
    } else if !tga_header_ok(b) {
        false
    } else if b[2] == 9 || b[2] == 10 || b[2] == 11 {
        true
    } else {
        b.len() >= tga_needed(b)
    }
}

/// BMP magic.
pub fn is_bmp(bytes: &[u8]) -> (r: bool)
    ensures
        r == spec_is_bmp(bytes@),
{
    let magic: [u8; 2] = [0x42, 0x4D];
    assert(magic@ == seq![0x42u8, 0x4D]);
    bytes.len() >= 26 && has_prefix(bytes, &magic)
}

/// ICO and CUR header.
pub fn is_ico(bytes: &[u8]) -> (r: bool)
    ensures
        r == spec_is_ico(bytes@),
{
    bytes.len() >= 22 && bytes[0] == 0 && bytes[1] == 0 && (bytes[2] == 1 || bytes[2] == 2) && bytes[3] == 0
        && read_le16(bytes, 4) > 0
}

/// QOI magic.
pub fn is_qoi(bytes: &[u8]) -> (r: bool)
    ensures
        r == spec_is_qoi(bytes@),
{
    let magic: [u8; 4] = [0x71, 0x6F, 0x69, 0x66];
    assert(magic@ == seq![0x71u8, 0x6F, 0x69, 0x66]);
    bytes.len() >= 14 && has_prefix(bytes, &magic)
}

/// PNM magic.
pub fn is_pnm(bytes: &[u8]) -> (r: bool)
    ensures
        r == spec_is_pnm(bytes@),
{
    if bytes.len() < 3 {
        return false;
    }
    let c = bytes[2];
    bytes[0] == 0x50 && 0x31 <= bytes[1] && bytes[1] <= 0x37
        && (c == 32 || c == 9 || c == 10 || c == 12 || c == 13 || c == 0x23)
}

/// TGA plausibility.
pub fn is_tga(bytes: &[u8]) -> (r: bool)
    ensures
        r == spec_is_tga(bytes@),
{
    if bytes.len() < 18 {
        return false;
    }
    let footer: [u8; 18] = [
        0x54, 0x52, 0x55, 0x45, 0x56, 0x49, 0x53, 0x49, 0x4F, 0x4E, 0x2D, 0x58, 0x46, 0x49, 0x4C, 0x45, 0x2E, 0x00,
    ];
    assert(footer@ == tga_footer());
    if has_suffix(bytes, &footer) {
        return true;
    }
    let id_len = bytes[0] as u64;
    let cmap_type = bytes[1];
    let image_type = bytes[2];
    let cmap_len = read_le16(bytes, 5) as u64;
    let cmap_depth = bytes[7] as u64;
    let width = read_le16(bytes, 12) as u64;
    let height = read_le16(bytes, 14) as u64;
    let bpp = bytes[16];
    let descriptor = bytes[17];
    let known = image_type == 1 || image_type == 9 || image_type == 2 || image_type == 3 || image_type == 10
        || image_type == 11;
    let mapped = image_type == 1 || image_type == 9;
    let bpp_ok = if image_type == 1 || image_type == 9 || image_type == 3 || image_type == 11 {
        bpp == 8 || bpp == 16
    } else {
        bpp == 15 || bpp == 16 || bpp == 24 || bpp == 32
    };
    if !known || !bpp_ok || width == 0 || height == 0 || descriptor >= 0x40 || descriptor % 16 > 8
        || cmap_type > 1 || mapped != (cmap_type == 1)
        || (cmap_type == 1 && (cmap_len == 0 || !(cmap_depth == 15 || cmap_depth == 16 || cmap_depth == 24
        || cmap_depth == 32))) || (cmap_type == 0 && cmap_len != 0) {
        return false;
    }
    if image_type == 9 || image_type == 10 || image_type == 11 {
        return true;
    }
    proof {
        assert(width * height <= 0xffff * 0xffff) by (nonlinear_arith)
            requires width <= 0xffff, height <= 0xffff;
        assert(width * height * ((bpp + 7) / 8) <= 0xffff * 0xffff * 33) by (nonlinear_arith)
            requires width * height <= 0xffff * 0xffff, bpp <= 255;
        assert(cmap_len * ((cmap_depth + 7) / 8) <= 0xffff * 33) by (nonlinear_arith)
            requires cmap_len <= 0xffff, cmap_depth <= 255;
    }
    let cmap_bytes: u64 = if cmap_type == 1 { cmap_len * ((cmap_depth + 7) / 8) } else { 0 };
    let pixel_bytes: u64 = width * height * ((bpp as u64 + 7) / 8);
    (bytes.len() as u64) >= 18 + id_len + cmap_bytes + pixel_bytes
}

/// The simple raster containers that `image` decodes.
#[derive(Debug, Clone, Copy, PartialEq, Eq, Structural)]
pub enum RasterKind {
    /// BMP: 1 to 32 bits per pixel, RLE included.
    Bmp,
    /// TGA: uncompressed and RLE, true colour, gray and colour-mapped.
    Tga,
    /// ICO and CUR: the largest entry, BMP or PNG encoded.
    Ico,
    /// QOI, RGB and RGBA.
    Qoi,
    /// PNM: PBM, PGM, PPM, ASCII or binary, and PAM.
    Pnm,
}

/// The extension `image` knows each container by.
pub open spec fn raster_ext(k: RasterKind) -> Seq<char> {
    match k {
        RasterKind::Bmp => "bmp"@,
        RasterKind::Tga => "tga"@,
        RasterKind::Ico => "ico"@,
        RasterKind::Qoi => "qoi"@,
        RasterKind::Pnm => "pnm"@,
    }
}

/// How messages name each container.
pub open spec fn raster_name(k: RasterKind) -> Seq<char> {
    match k {
        RasterKind::Bmp => "BMP"@,
        RasterKind::Tga => "TGA"@,
        RasterKind::Ico => "ICO"@,
        RasterKind::Qoi => "QOI"@,
        RasterKind::Pnm => "PNM"@,
    }
}

/// Whether `ext` is one of the containers' extensions.
pub open spec fn known_ext(ext: Seq<char>) -> bool {
    ext == "bmp"@ || ext == "tga"@ || ext == "ico"@ || ext == "qoi"@ || ext == "pnm"@
}

fn ext_of(k: RasterKind) -> (r: &'static str)
    ensures
        r@ == raster_ext(k),
        known_ext(r@),
{
    match k {
        RasterKind::Bmp => "bmp",
        RasterKind::Tga => "tga",
        RasterKind::Ico => "ico",
        RasterKind::Qoi => "qoi",
        RasterKind::Pnm => "pnm",
    }
}

fn name_of(k: RasterKind) -> (r: &'static str)
    ensures
        r@ == raster_name(k),
{
    match k {
        RasterKind::Bmp => "BMP",
        RasterKind::Tga => "TGA",
        RasterKind::Ico => "ICO",
        RasterKind::Qoi => "QOI",
        RasterKind::Pnm => "PNM",
    }
}

/// What `image`'s decoder for the format with extension `ext` reads of the
/// header, without limits: width, height, the colour type as a code (`0`
/// L8, `1` La8, `2` Rgb8, `3` Rgba8, `4` L16, `5` La16, `6` Rgb16, `7`
/// Rgba16, `8` anything else) with its `Debug` text, and the image's size
/// in bytes; or the crate's message.
pub uninterp spec fn raster_header(ext: Seq<char>, bytes: Seq<u8>) -> Result<(u32, u32, u8, Seq<char>, u64), Seq<char>>;

/// `image::ImageReader::with_format` over the bytes, the format from
/// `ImageFormat::from_extension`, `no_limits`, `into_decoder`; then the
/// decoder's `dimensions`, `color_type` and `total_bytes`. The contract
/// names what comes back.
#[verifier::external_body]
fn raster_open(ext: &str, bytes: &[u8]) -> (r: Result<(u32, u32, u8, String, u64), String>)
    requires
        known_ext(ext@),
    ensures
        match r {
            Ok((w, h, c, t, n)) => raster_header(ext@, bytes@) == Ok::<(u32, u32, u8, Seq<char>, u64), Seq<char>>((w, h, c, t@, n)),
            Err(m) => raster_header(ext@, bytes@) == Err::<(u32, u32, u8, Seq<char>, u64), Seq<char>>(m@),
        },
{
    let mut r = ImageReader::with_format(Cursor::new(bytes), ImageFormat::from_extension(ext).unwrap());
    r.no_limits();
    let d = r.into_decoder().map_err(|e| e.to_string())?;
    let ((w, h), c) = (d.dimensions(), d.color_type());
    let code = match c { L8 => 0, La8 => 1, Rgb8 => 2, Rgba8 => 3, L16 => 4, La16 => 5, Rgb16 => 6, Rgba16 => 7, _ => 8 };
    Ok((w, h, code, format!("{c:?}"), d.total_bytes()))
}

/// The ICC profile `image`'s decoder reports for the bytes, `None` when
/// there is none or it fails.
pub uninterp spec fn raster_icc_profile(ext: Seq<char>, bytes: Seq<u8>) -> Option<Seq<u8>>;

/// The decoder opened as in [`raster_open`], then `icc_profile`, errors
/// read as `None`. The contract names what comes back.
#[verifier::external_body]
fn raster_icc(ext: &str, bytes: &[u8]) -> (r: Option<Vec<u8>>)
    requires
        known_ext(ext@),
    ensures
        blob_view(r) == raster_icc_profile(ext@, bytes@),
{
    let mut r = ImageReader::with_format(Cursor::new(bytes), ImageFormat::from_extension(ext).unwrap());
    r.no_limits();
    r.into_decoder().ok()?.icc_profile().ok().flatten()
}

/// What `image`'s decoder writes into a buffer holding `buf`; or the
/// crate's message.
pub uninterp spec fn raster_bytes(ext: Seq<char>, bytes: Seq<u8>, buf: Seq<u8>) -> Result<Seq<u8>, Seq<char>>;

/// The decoder opened as in [`raster_open`], then `read_image` into the
/// buffer, which holds exactly the image's size in bytes, as the crate
/// asserts. The contract names the buffer it leaves.
#[verifier::external_body]
fn raster_read8(ext: &str, bytes: &[u8], buf: Vec<u8>) -> (r: Result<Vec<u8>, String>)
    requires
        known_ext(ext@),
        raster_header(ext@, bytes@) matches Ok((_, _, _, _, n)) && buf@.len() == n,
    ensures
        match r {
            Ok(v) => raster_bytes(ext@, bytes@, buf@) == Ok::<Seq<u8>, Seq<char>>(v@),
            Err(m) => raster_bytes(ext@, bytes@, buf@) == Err::<Seq<u8>, Seq<char>>(m@),
        },
{
    let mut r = ImageReader::with_format(Cursor::new(bytes), ImageFormat::from_extension(ext).unwrap());
    r.no_limits();
    let mut buf = buf;
    r.into_decoder().map_err(|e| e.to_string())?.read_image(&mut buf).map_err(|e| e.to_string())?;
    Ok(buf)
}

/// What `image`'s decoder writes into a buffer holding `buf`, read back
/// as 16-bit samples in the byte order it wrote them in, the machine's;
/// or the crate's message.
pub uninterp spec fn raster_words(ext: Seq<char>, bytes: Seq<u8>, buf: Seq<u8>) -> Result<Seq<u16>, Seq<char>>;

/// The same read as [`raster_read8`], each byte pair then read with
/// `u16::from_ne_bytes`, as the crate writes 16-bit samples in native
/// order. The contract names the samples.
#[verifier::external_body]
fn raster_read16(ext: &str, bytes: &[u8], buf: Vec<u8>) -> (r: Result<Vec<u16>, String>)
    requires
        known_ext(ext@),
        raster_header(ext@, bytes@) matches Ok((_, _, _, _, n)) && buf@.len() == n,
    ensures
        match r {
            Ok(v) => raster_words(ext@, bytes@, buf@) == Ok::<Seq<u16>, Seq<char>>(v@),
            Err(m) => raster_words(ext@, bytes@, buf@) == Err::<Seq<u16>, Seq<char>>(m@),
        },
{
    let mut r = ImageReader::with_format(Cursor::new(bytes), ImageFormat::from_extension(ext).unwrap());
    r.no_limits();
    let mut buf = buf;
    r.into_decoder().map_err(|e| e.to_string())?.read_image(&mut buf).map_err(|e| e.to_string())?;
    Ok(buf.chunks_exact(2).map(|b| u16::from_ne_bytes([b[0], b[1]])).collect())
}

/// The layout of a colour type code.
pub open spec fn raster_color(code: u8) -> ColorType {
    if code % 4 == 0 {
        ColorType::Gray
    } else if code % 4 == 1 {
        ColorType::GrayAlpha
    } else if code % 4 == 2 {
        ColorType::Rgb
    } else {
        ColorType::Rgba
    }
}

/// What decoding a raster container gives: the crate's refusal of the
/// header, the pixel limit's, a colour type the image cannot hold, a size
/// this machine cannot address; then the samples read into a zeroed buffer
/// of the image's size, or the crate's refusal, as an image with the
/// profile the decoder reports.
pub open spec fn raster_decode_ok(r: Result<Image, Error>, kind: RasterKind, bytes: Seq<u8>, opts: DecodeOpts) -> bool {
    let ext = raster_ext(kind);
    match raster_header(ext, bytes) {
        Err(m) => r matches Err(Error::Codec(s)) && s@ == m,
        Ok((w, h, code, debug, n)) => if w * h > opts.max_pixels {
            r matches Err(Error::TooLarge { pixels, limit }) && pixels == w * h && limit == opts.max_pixels
        } else if code > 7 {
            r matches Err(Error::Codec(s)) && s@ == raster_name(kind) + ": "@ + debug + " samples are not supported"@
        } else if n > usize::MAX {
            r matches Err(Error::Codec(s)) && s@ == "image too large for this platform"@
        } else {
            let zero = Seq::new(n as nat, |i: int| 0u8);
            let meta = MetaView { icc: raster_icc_profile(ext, bytes), exif: None, xmp: None };
            if code < 4 {
                match raster_bytes(ext, bytes, zero) {
                    Err(m) => r matches Err(Error::Codec(s)) && s@ == m,
                    Ok(v) => built(r, w, h, raster_color(code), SampleData::U8(v), meta),
                }
            } else {
                match raster_words(ext, bytes, zero) {
                    Err(m) => r matches Err(Error::Codec(s)) && s@ == m,
                    Ok(v) => built(r, w, h, raster_color(code), SampleData::U16(v), meta),
                }
            }
        },
    }
}

/// Decodes a BMP, TGA, ICO, QOI or PNM file through `image`: 8 and 16-bit
/// gray, gray with alpha, RGB and RGBA, with the ICC profile the decoder
/// reports.
///
/// # Errors
/// The crate's messages as `Codec`, float and other sample types as
/// `Codec`, `TooLarge` above the pixel limit.
pub fn decode_raster(kind: RasterKind, bytes: &[u8], opts: &DecodeOpts) -> (r: Result<Image, Error>)
    ensures
        raster_decode_ok(r, kind, bytes@, *opts),
{
    let ext = ext_of(kind);
    let (width, height, code, debug, total) = match raster_open(ext, bytes) {
        Ok(v) => v,
        Err(m) => return Err(Error::Codec(m)),
    };
    match opts.check_pixels(width, height) {
        Ok(()) => {},
        Err(e) => return Err(e),
    }
    if code > 7 {
        let mut m = String::new();
        push_str(&mut m, name_of(kind));
        push_str(&mut m, ": ");
        push_str(&mut m, debug.as_str());
        push_str(&mut m, " samples are not supported");
        return Err(Error::Codec(m));
    }
    let color = if code % 4 == 0 {
        ColorType::Gray
    } else if code % 4 == 1 {
        ColorType::GrayAlpha
    } else if code % 4 == 2 {
        ColorType::Rgb
    } else {
        ColorType::Rgba
    };
    let icc = raster_icc(ext, bytes);
    if total as u128 > usize::MAX as u128 {
        let mut m = String::new();
        push_str(&mut m, "image too large for this platform");
        return Err(Error::Codec(m));
    }
    let buf = zeroed_bytes(total as usize);
    assert(buf@ =~= Seq::new(total as nat, |i: int| 0u8));
    let samples = if code < 4 {
        match raster_read8(ext, bytes, buf) {
            Ok(v) => Samples::U8(v),
            Err(m) => return Err(Error::Codec(m)),
        }
    } else {
        match raster_read16(ext, bytes, buf) {
            Ok(v) => Samples::U16(v),
            Err(m) => return Err(Error::Codec(m)),
        }
    };
    match Image::new(width, height, color, samples) {
        Ok(img) => Ok(img.with_icc(icc)),
        Err(e) => Err(e),
    }
}

} // verus!
