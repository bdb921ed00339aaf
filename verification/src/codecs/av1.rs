//! AV1 pictures to pixels: the planes `re_rav1d` decodes, converted to
//! interleaved RGB or gray through `yuv`, GBR-coded pictures shuffled
//! without a matrix, deep samples widened to the full 16-bit range.

use vstd::prelude::*;
use crate::codecs::avif::{gbr_at, keep_channels, kept_channels, plane_fits, shuffle_gbr, widen, widened};
use crate::codecs::pixels::zeroed_bytes;
use crate::error::Error;
use crate::image::{ColorType, SampleData, Samples};
use crate::text::{decimal, push_decimal, push_str};
use yuv::{YuvGrayImage, YuvPlanarImage, YuvRange};
use re_rav1d::dav1d::{Decoder as Av1Decoder, Error as Av1Error, Picture, PixelLayout, PlanarImageComponent, Settings};
use re_rav1d::dav1d::pixel::YUVRange;
use yuv::YuvStandardMatrix::{Bt2020, Bt470_6, Bt601, Bt709, Smpte240};

verus! {

/// The planes of a decoded picture: bytes for 8-bit pictures, 16-bit
/// samples for deeper ones. A monochrome picture has empty U and V.
#[derive(Debug)]
pub enum Av1Planes {
    /// 8-bit samples.
    Eight {
        /// Luma.
        y: Vec<u8>,
        /// Blue-difference chroma.
        u: Vec<u8>,
        /// Red-difference chroma.
        v: Vec<u8>,
    },
    /// 10 or 12-bit samples, one `u16` each.
    Deep {
        /// Luma.
        y: Vec<u16>,
        /// Blue-difference chroma.
        u: Vec<u16>,
        /// Red-difference chroma.
        v: Vec<u16>,
    },
}

/// A decoded AV1 picture as plain values.
#[derive(Debug)]
pub struct Av1Frame {
    /// Width in pixels.
    pub width: u32,
    /// Height in pixels.
    pub height: u32,
    /// Bits per component as the decoder reports them.
    pub bits: u64,
    /// Pixel layout: `0` I400 (monochrome), `1` I420, `2` I422, `3` I444.
    pub layout: u8,
    /// Full-range samples, rather than limited.
    pub full_range: bool,
    /// The sequence header's matrix coefficients, by their number (`0`
    /// identity, `1` BT.709, `2` unspecified, `4` BT.470M, `5` BT.470BG,
    /// `6` ST 170M, `7` ST 240M, `9` BT.2020 non-constant luminance, ...).
    pub matrix: u8,
    /// Bytes between rows of the luma plane.
    pub y_stride: u32,
    /// Bytes between rows of each chroma plane.
    pub uv_stride: u32,
    /// The samples.
    pub planes: Av1Planes,
}

/// The `yuv` matrix for a matrix coefficients number: `0` BT.601 (for
/// unspecified, BT.470BG and ST 170M, as libavif reads them), `1` BT.709,
/// `2` BT.2020, `3` SMPTE 240, `4` BT.470-6 (for BT.470M); `None` for
/// the others.
pub open spec fn yuv_matrix(mc: u8) -> Option<u8> {
    if mc == 1 {
        Some(1u8)
    } else if mc == 2 || mc == 5 || mc == 6 {
        Some(0u8)
    } else if mc == 4 {
        Some(4u8)
    } else if mc == 7 {
        Some(3u8)
    } else if mc == 9 {
        Some(2u8)
    } else {
        None
    }
}

/// How a matrix coefficients number is named in messages.
pub open spec fn matrix_name(mc: u8) -> Seq<char> {
    if mc == 0 {
        "Identity"@
    } else if mc == 3 {
        "Reserved"@
    } else if mc == 8 {
        "YCgCo"@
    } else if mc == 10 {
        "BT2020ConstantLuminance"@
    } else if mc == 11 {
        "ST2085"@
    } else if mc == 12 {
        "ChromaticityDerivedNonConstantLuminance"@
    } else if mc == 13 {
        "ChromaticityDerivedConstantLuminance"@
    } else if mc == 14 {
        "ICtCp"@
    } else {
        "Unspecified"@
    }
}

fn matrix_text(mc: u8) -> (r: &'static str)
    ensures
        r@ == matrix_name(mc),
{
    if mc == 0 {
        "Identity"
    } else if mc == 3 {
        "Reserved"
    } else if mc == 8 {
        "YCgCo"
    } else if mc == 10 {
        "BT2020ConstantLuminance"
    } else if mc == 11 {
        "ST2085"
    } else if mc == 12 {
        "ChromaticityDerivedNonConstantLuminance"
    } else if mc == 13 {
        "ChromaticityDerivedConstantLuminance"
    } else if mc == 14 {
        "ICtCp"
    } else {
        "Unspecified"
    }
}

/// What `yuv::yuv400_to_rgb` leaves in an output buffer holding `out`, from the
/// gray plane (strides in samples), full or limited range, and the matrix
/// code (see [`yuv_matrix`]); or the crate's message.
pub uninterp spec fn yuv400_rgb(y: Seq<u8>, y_stride: u32, width: u32, height: u32, full: bool, matrix: u8, out: Seq<u8>) -> Result<Seq<u8>, Seq<char>>;

/// `yuv::yuv400_to_rgb` into the buffer, rows `width * 3` samples apart. The
/// contract names the buffer it leaves; it keeps its length.
#[verifier::external_body]
fn yuv400_to_rgb(y_plane: &[u8], y_stride: u32, width: u32, height: u32, full: bool, matrix: u8, out: &mut Vec<u8>) -> (r: Result<(), String>)
    requires
        matrix <= 4,
        width * 3 <= u32::MAX,
    ensures
        final(out)@.len() == old(out)@.len(),
        match r {
            Ok(()) => yuv400_rgb(y_plane@, y_stride, width, height, full, matrix, old(out)@) == Ok::<Seq<u8>, Seq<char>>(final(out)@),
            Err(m) => yuv400_rgb(y_plane@, y_stride, width, height, full, matrix, old(out)@) == Err::<Seq<u8>, Seq<char>>(m@),
        },
{
    let m = [Bt601, Bt709, Bt2020, Smpte240, Bt470_6][matrix as usize];
    let range = if full { YuvRange::Full } else { YuvRange::Limited };
    yuv::yuv400_to_rgb(&YuvGrayImage { y_plane, y_stride, width, height }, out, width * 3, range, m).map_err(|e| e.to_string())
}

/// `yuv::yuv420_to_rgb` into the buffer, rows `width * 3` samples apart, the
/// matrix by its code (see [`yuv_matrix`]). What it writes is not stated:
/// the crate picks a SIMD kernel at run time whose rounding differs from
/// its scalar path. The buffer keeps its length.
#[verifier::external_body]
fn yuv420_to_rgb(y_plane: &[u8], y_stride: u32, u_plane: &[u8], u_stride: u32, v_plane: &[u8], v_stride: u32, width: u32, height: u32, full: bool, matrix: u8, out: &mut Vec<u8>) -> (r: Result<(), String>)
    requires
        matrix <= 4,
        width * 3 <= u32::MAX,
    ensures
        final(out)@.len() == old(out)@.len(),
{
    let m = [Bt601, Bt709, Bt2020, Smpte240, Bt470_6][matrix as usize];
    let range = if full { YuvRange::Full } else { YuvRange::Limited };
    yuv::yuv420_to_rgb(&YuvPlanarImage { y_plane, y_stride, u_plane, u_stride, v_plane, v_stride, width, height }, out, width * 3, range, m).map_err(|e| e.to_string())
}

/// `yuv::yuv422_to_rgb` into the buffer, rows `width * 3` samples apart, the
/// matrix by its code (see [`yuv_matrix`]). What it writes is not stated:
/// the crate picks a SIMD kernel at run time whose rounding differs from
/// its scalar path. The buffer keeps its length.
#[verifier::external_body]
fn yuv422_to_rgb(y_plane: &[u8], y_stride: u32, u_plane: &[u8], u_stride: u32, v_plane: &[u8], v_stride: u32, width: u32, height: u32, full: bool, matrix: u8, out: &mut Vec<u8>) -> (r: Result<(), String>)
    requires
        matrix <= 4,
        width * 3 <= u32::MAX,
    ensures
        final(out)@.len() == old(out)@.len(),
{
    let m = [Bt601, Bt709, Bt2020, Smpte240, Bt470_6][matrix as usize];
    let range = if full { YuvRange::Full } else { YuvRange::Limited };
    yuv::yuv422_to_rgb(&YuvPlanarImage { y_plane, y_stride, u_plane, u_stride, v_plane, v_stride, width, height }, out, width * 3, range, m).map_err(|e| e.to_string())
}

/// `yuv::yuv444_to_rgb` into the buffer, rows `width * 3` samples apart, the
/// matrix by its code (see [`yuv_matrix`]). What it writes is not stated:
/// the crate picks a SIMD kernel at run time whose rounding differs from
/// its scalar path. The buffer keeps its length.
#[verifier::external_body]
fn yuv444_to_rgb(y_plane: &[u8], y_stride: u32, u_plane: &[u8], u_stride: u32, v_plane: &[u8], v_stride: u32, width: u32, height: u32, full: bool, matrix: u8, out: &mut Vec<u8>) -> (r: Result<(), String>)
    requires
        matrix <= 4,
        width * 3 <= u32::MAX,
    ensures
        final(out)@.len() == old(out)@.len(),
{
    let m = [Bt601, Bt709, Bt2020, Smpte240, Bt470_6][matrix as usize];
    let range = if full { YuvRange::Full } else { YuvRange::Limited };
    yuv::yuv444_to_rgb(&YuvPlanarImage { y_plane, y_stride, u_plane, u_stride, v_plane, v_stride, width, height }, out, width * 3, range, m).map_err(|e| e.to_string())
}

/// `yuv::y010_to_rgb10` into the buffer, rows `width * 3` samples apart, the
/// matrix by its code (see [`yuv_matrix`]). What it writes is not stated:
/// the crate picks a SIMD kernel at run time whose rounding differs from
/// its scalar path. The buffer keeps its length.
#[verifier::external_body]
fn y010_to_rgb10(y_plane: &[u16], y_stride: u32, width: u32, height: u32, full: bool, matrix: u8, out: &mut Vec<u16>) -> (r: Result<(), String>)
    requires
        matrix <= 4,
        width * 3 <= u32::MAX,
    ensures
        final(out)@.len() == old(out)@.len(),
{
    let m = [Bt601, Bt709, Bt2020, Smpte240, Bt470_6][matrix as usize];
    let range = if full { YuvRange::Full } else { YuvRange::Limited };
    yuv::y010_to_rgb10(&YuvGrayImage { y_plane, y_stride, width, height }, out, width * 3, range, m).map_err(|e| e.to_string())
}

/// `yuv::y012_to_rgb12` into the buffer, rows `width * 3` samples apart, the
/// matrix by its code (see [`yuv_matrix`]). What it writes is not stated:
/// the crate picks a SIMD kernel at run time whose rounding differs from
/// its scalar path. The buffer keeps its length.
#[verifier::external_body]
fn y012_to_rgb12(y_plane: &[u16], y_stride: u32, width: u32, height: u32, full: bool, matrix: u8, out: &mut Vec<u16>) -> (r: Result<(), String>)
    requires
        matrix <= 4,
        width * 3 <= u32::MAX,
    ensures
        final(out)@.len() == old(out)@.len(),
{
    let m = [Bt601, Bt709, Bt2020, Smpte240, Bt470_6][matrix as usize];
    let range = if full { YuvRange::Full } else { YuvRange::Limited };
    yuv::y012_to_rgb12(&YuvGrayImage { y_plane, y_stride, width, height }, out, width * 3, range, m).map_err(|e| e.to_string())
}

/// `yuv::i010_to_rgb10` into the buffer, rows `width * 3` samples apart, the
/// matrix by its code (see [`yuv_matrix`]). What it writes is not stated:
/// the crate picks a SIMD kernel at run time whose rounding differs from
/// its scalar path. The buffer keeps its length.
#[verifier::external_body]
fn i010_to_rgb10(y_plane: &[u16], y_stride: u32, u_plane: &[u16], u_stride: u32, v_plane: &[u16], v_stride: u32, width: u32, height: u32, full: bool, matrix: u8, out: &mut Vec<u16>) -> (r: Result<(), String>)
    requires
        matrix <= 4,
        width * 3 <= u32::MAX,
    ensures
        final(out)@.len() == old(out)@.len(),
{
    let m = [Bt601, Bt709, Bt2020, Smpte240, Bt470_6][matrix as usize];
    let range = if full { YuvRange::Full } else { YuvRange::Limited };
    yuv::i010_to_rgb10(&YuvPlanarImage { y_plane, y_stride, u_plane, u_stride, v_plane, v_stride, width, height }, out, width * 3, range, m).map_err(|e| e.to_string())
}

/// `yuv::i210_to_rgb10` into the buffer, rows `width * 3` samples apart, the
/// matrix by its code (see [`yuv_matrix`]). What it writes is not stated:
/// the crate picks a SIMD kernel at run time whose rounding differs from
/// its scalar path. The buffer keeps its length.
#[verifier::external_body]
fn i210_to_rgb10(y_plane: &[u16], y_stride: u32, u_plane: &[u16], u_stride: u32, v_plane: &[u16], v_stride: u32, width: u32, height: u32, full: bool, matrix: u8, out: &mut Vec<u16>) -> (r: Result<(), String>)
    requires
        matrix <= 4,
        width * 3 <= u32::MAX,
    ensures
        final(out)@.len() == old(out)@.len(),
{
    let m = [Bt601, Bt709, Bt2020, Smpte240, Bt470_6][matrix as usize];
    let range = if full { YuvRange::Full } else { YuvRange::Limited };
    yuv::i210_to_rgb10(&YuvPlanarImage { y_plane, y_stride, u_plane, u_stride, v_plane, v_stride, width, height }, out, width * 3, range, m).map_err(|e| e.to_string())
}

/// `yuv::i410_to_rgb10` into the buffer, rows `width * 3` samples apart, the
/// matrix by its code (see [`yuv_matrix`]). What it writes is not stated:
/// the crate picks a SIMD kernel at run time whose rounding differs from
/// its scalar path. The buffer keeps its length.
#[verifier::external_body]
fn i410_to_rgb10(y_plane: &[u16], y_stride: u32, u_plane: &[u16], u_stride: u32, v_plane: &[u16], v_stride: u32, width: u32, height: u32, full: bool, matrix: u8, out: &mut Vec<u16>) -> (r: Result<(), String>)
    requires
        matrix <= 4,
        width * 3 <= u32::MAX,
    ensures
        final(out)@.len() == old(out)@.len(),
{
    let m = [Bt601, Bt709, Bt2020, Smpte240, Bt470_6][matrix as usize];
    let range = if full { YuvRange::Full } else { YuvRange::Limited };
    yuv::i410_to_rgb10(&YuvPlanarImage { y_plane, y_stride, u_plane, u_stride, v_plane, v_stride, width, height }, out, width * 3, range, m).map_err(|e| e.to_string())
}

/// `yuv::i012_to_rgb12` into the buffer, rows `width * 3` samples apart, the
/// matrix by its code (see [`yuv_matrix`]). What it writes is not stated:
/// the crate picks a SIMD kernel at run time whose rounding differs from
/// its scalar path. The buffer keeps its length.
#[verifier::external_body]
fn i012_to_rgb12(y_plane: &[u16], y_stride: u32, u_plane: &[u16], u_stride: u32, v_plane: &[u16], v_stride: u32, width: u32, height: u32, full: bool, matrix: u8, out: &mut Vec<u16>) -> (r: Result<(), String>)
    requires
        matrix <= 4,
        width * 3 <= u32::MAX,
    ensures
        final(out)@.len() == old(out)@.len(),
{
    let m = [Bt601, Bt709, Bt2020, Smpte240, Bt470_6][matrix as usize];
    let range = if full { YuvRange::Full } else { YuvRange::Limited };
    yuv::i012_to_rgb12(&YuvPlanarImage { y_plane, y_stride, u_plane, u_stride, v_plane, v_stride, width, height }, out, width * 3, range, m).map_err(|e| e.to_string())
}

/// `yuv::i212_to_rgb12` into the buffer, rows `width * 3` samples apart, the
/// matrix by its code (see [`yuv_matrix`]). What it writes is not stated:
/// the crate picks a SIMD kernel at run time whose rounding differs from
/// its scalar path. The buffer keeps its length.
#[verifier::external_body]
fn i212_to_rgb12(y_plane: &[u16], y_stride: u32, u_plane: &[u16], u_stride: u32, v_plane: &[u16], v_stride: u32, width: u32, height: u32, full: bool, matrix: u8, out: &mut Vec<u16>) -> (r: Result<(), String>)
    requires
        matrix <= 4,
        width * 3 <= u32::MAX,
    ensures
        final(out)@.len() == old(out)@.len(),
{
    let m = [Bt601, Bt709, Bt2020, Smpte240, Bt470_6][matrix as usize];
    let range = if full { YuvRange::Full } else { YuvRange::Limited };
    yuv::i212_to_rgb12(&YuvPlanarImage { y_plane, y_stride, u_plane, u_stride, v_plane, v_stride, width, height }, out, width * 3, range, m).map_err(|e| e.to_string())
}

/// `yuv::i412_to_rgb12` into the buffer, rows `width * 3` samples apart, the
/// matrix by its code (see [`yuv_matrix`]). What it writes is not stated:
/// the crate picks a SIMD kernel at run time whose rounding differs from
/// its scalar path. The buffer keeps its length.
#[verifier::external_body]
fn i412_to_rgb12(y_plane: &[u16], y_stride: u32, u_plane: &[u16], u_stride: u32, v_plane: &[u16], v_stride: u32, width: u32, height: u32, full: bool, matrix: u8, out: &mut Vec<u16>) -> (r: Result<(), String>)
    requires
        matrix <= 4,
        width * 3 <= u32::MAX,
    ensures
        final(out)@.len() == old(out)@.len(),
{
    let m = [Bt601, Bt709, Bt2020, Smpte240, Bt470_6][matrix as usize];
    let range = if full { YuvRange::Full } else { YuvRange::Limited };
    yuv::i412_to_rgb12(&YuvPlanarImage { y_plane, y_stride, u_plane, u_stride, v_plane, v_stride, width, height }, out, width * 3, range, m).map_err(|e| e.to_string())
}

/// `n` zero samples.
fn zeroed_words(n: usize) -> (r: Vec<u16>)
    ensures
        r@ == Seq::new(n as nat, |i: int| 0u16),
{
    let mut v: Vec<u16> = Vec::new();
    let mut i: usize = 0;
    while i < n
        invariant
            i <= n,
            v@ == Seq::new(i as nat, |j: int| 0u16),
        decreases n - i,
    {
        v.push(0);
        i = i + 1;
        assert(v@ =~= Seq::new(i as nat, |j: int| 0u16));
    }
    v
}

/// Three planes interleaved as R, G, B from G, B, R.
pub open spec fn gbr_seq<T>(g: Seq<T>, b: Seq<T>, r: Seq<T>, width: u32, height: u32, stride: int) -> Seq<T> {
    Seq::new((width * height * 3) as nat, |i: int| gbr_at(g, b, r, width as int, stride, i))
}

/// Every sample widened from `bits` to the full 16-bit range.
pub open spec fn widened_seq(v: Seq<u16>, bits: u64) -> Seq<u16> {
    Seq::new(v.len(), |i: int| widened(v[i], if bits == 10 { 10u32 } else if bits == 12 { 12u32 } else { 0u32 }))
}

/// Samples of `n` zeros.
pub open spec fn zeros<T>(n: int, z: T) -> Seq<T> {
    Seq::new(n as nat, |i: int| z)
}

/// What `yuv` makes of the 8-bit luma of a monochrome picture.
pub open spec fn converted_gray8(f: Av1Frame, y: Seq<u8>, m: u8) -> Result<Seq<u8>, Seq<char>> {
    yuv400_rgb(y, f.y_stride, f.width, f.height, f.full_range, m, zeros(f.width * f.height * 3, 0u8))
}

/// An outcome of a `yuv` conversion whose result is not named: the
/// samples it wrote, of the output's size, or its message.
pub open spec fn conversion_fits(f: Av1Frame, out: Result<SampleData, Seq<char>>) -> bool {
    out matches Ok(d) ==> crate::image::data_len(d) == f.width * f.height * 3
}

/// The layout a picture decodes to: gray for monochrome, else RGB.
pub open spec fn frame_color(f: Av1Frame) -> ColorType {
    if f.layout == 0 { ColorType::Gray } else { ColorType::Rgb }
}

/// What a decoded picture becomes, `out` standing for what the `yuv`
/// conversion wrote or said where that is not named: refused for a bit
/// depth AV1 does not have, a size that overflows, planes that do not
/// match the depth; GBR-coded (identity matrix) colour shuffled to RGB
/// when its chroma is whole, refused when subsampled; otherwise converted
/// through `yuv` with the matrix the picture names, refused for one `yuv`
/// has no matrix for; deep samples widened; one channel kept for
/// monochrome.
pub open spec fn spec_to_rgb(f: Av1Frame, out: Result<SampleData, Seq<char>>) -> Result<(ColorType, SampleData), Seq<char>> {
    let mono = f.layout == 0;
    let ch: int = if mono { 1 } else { 3 };
    if !(f.bits == 8 || f.bits == 10 || f.bits == 12) {
        Err("unsupported AV1 bit depth "@ + decimal(f.bits as nat))
    } else if f.width * f.height * ch > usize::MAX {
        Err("output buffer size overflow"@)
    } else if (f.bits == 8) != (f.planes is Eight) {
        Err("AV1 planes do not match the bit depth"@)
    } else if f.matrix == 0 && !mono {
        if f.layout != 3 {
            Err("identity matrix with subsampled chroma"@)
        } else {
            match f.planes {
                Av1Planes::Eight { y, u, v } => {
                    let s = f.y_stride as int;
                    if plane_fits(y@.len() as int, f.width as int, f.height as int, s)
                        && plane_fits(u@.len() as int, f.width as int, f.height as int, s)
                        && plane_fits(v@.len() as int, f.width as int, f.height as int, s) {
                        Ok((ColorType::Rgb, SampleData::U8(gbr_seq(y@, u@, v@, f.width, f.height, s))))
                    } else {
                        Err("AV1 plane is smaller than its stride says"@)
                    }
                },
                Av1Planes::Deep { y, u, v } => {
                    let s = f.y_stride as int / 2;
                    if plane_fits(y@.len() as int, f.width as int, f.height as int, s)
                        && plane_fits(u@.len() as int, f.width as int, f.height as int, s)
                        && plane_fits(v@.len() as int, f.width as int, f.height as int, s) {
                        Ok((ColorType::Rgb, SampleData::U16(widened_seq(gbr_seq(y@, u@, v@, f.width, f.height, s), f.bits))))
                    } else {
                        Err("AV1 plane is smaller than its stride says"@)
                    }
                },
            }
        }
    } else {
        match yuv_matrix(f.matrix) {
            None => Err("unsupported AV1 matrix coefficients "@ + matrix_name(f.matrix)),
            Some(m) => if f.width * 3 > u32::MAX || f.width * f.height * 3 > usize::MAX {
                Err("output buffer size overflow"@)
            } else {
                let out8 = match f.planes {
                    Av1Planes::Eight { y, u, v } => if mono { converted_gray8(f, y@, m) } else {
                        match out {
                            Ok(SampleData::U8(rgb)) => Ok(rgb),
                            Ok(_) => Err(Seq::empty()),
                            Err(e) => Err(e),
                        }
                    },
                    Av1Planes::Deep { .. } => Err(Seq::empty()),
                };
                match f.planes {
                    Av1Planes::Eight { .. } => match out8 {
                        Err(e) => Err(e),
                        Ok(rgb) => Ok((frame_color(f), SampleData::U8(kept_channels(rgb, ch)))),
                    },
                    Av1Planes::Deep { .. } => match out {
                        Ok(SampleData::U16(rgb)) => Ok((frame_color(f), SampleData::U16(kept_channels(widened_seq(rgb, f.bits), ch)))),
                        Ok(_) => Err(Seq::empty()),
                        Err(e) => Err(e),
                    },
                }
            },
        }
    }
}

fn codec(m: &str) -> (r: Error)
    ensures
        r matches Error::Codec(s) && s@ == m@,
{
    let mut s = String::new();
    push_str(&mut s, m);
    Error::Codec(s)
}

fn widen_all(mut v: Vec<u16>, bits: u64) -> (r: Vec<u16>)
    ensures
        r@ == widened_seq(v@, bits),
{
    let ghost before = v@;
    let b: u32 = if bits == 10 { 10 } else if bits == 12 { 12 } else { 0 };
    widen(v.as_mut_slice(), b);
    assert(v@ =~= widened_seq(before, bits)) by {
        assert forall|i: int| 0 <= i < v@.len() implies v@[i] == widened_seq(before, bits)[i] by {}
    }
    v
}

/// Whether a conversion's result is what the spec says.
pub open spec fn rgb_is(r: Result<(ColorType, Samples), Error>, s: Result<(ColorType, SampleData), Seq<char>>) -> bool {
    match s {
        Ok((c, d)) => r matches Ok((c2, d2)) && c2 == c && d2@ == d,
        Err(m) => r matches Err(Error::Codec(x)) && x@ == m,
    }
}

/// Colour planes to interleaved RGB, or gray for a monochrome picture, as
/// [`spec_to_rgb`] says for some outcome of the `yuv` conversion, of the
/// output's size, where that outcome is not named.
///
/// # Errors
/// `Codec` for what [`spec_to_rgb`] refuses, and for what `yuv` refuses.
pub fn to_rgb(f: &Av1Frame) -> (r: Result<(ColorType, Samples), Error>)
    ensures
        exists|out: Result<SampleData, Seq<char>>| conversion_fits(*f, out) && #[trigger] rgb_is(r, spec_to_rgb(*f, out)),
{
    let (r, out) = to_rgb_traced(f);
    proof { assert(rgb_is(r, spec_to_rgb(*f, out@))); }
    r
}

/// [`to_rgb`], with the outcome of the conversion beside the result.
fn to_rgb_traced(f: &Av1Frame) -> (res: (Result<(ColorType, Samples), Error>, Ghost<Result<SampleData, Seq<char>>>))
    ensures
        conversion_fits(*f, res.1@),
        rgb_is(res.0, spec_to_rgb(*f, res.1@)),
{
    let ghost none: Result<SampleData, Seq<char>> = Err(Seq::empty());
    let mono = f.layout == 0;
    let ch: usize = if mono { 1 } else { 3 };
    if !(f.bits == 8 || f.bits == 10 || f.bits == 12) {
        let mut m = String::new();
        push_str(&mut m, "unsupported AV1 bit depth ");
        push_decimal(&mut m, f.bits);
        return (Err(Error::Codec(m)), Ghost(none));
    }
    let (w, h) = (f.width as usize, f.height as usize);
    let px = match w.checked_mul(h) {
        Some(p) => p,
        None => {
            proof { assert(f.width * f.height * ch >= f.width * f.height) by (nonlinear_arith) requires ch >= 1; }
            return (Err(codec("output buffer size overflow")), Ghost(none));
        },
    };
    if px.checked_mul(ch).is_none() {
        return (Err(codec("output buffer size overflow")), Ghost(none));
    }
    let eight = match &f.planes {
        Av1Planes::Eight { .. } => true,
        Av1Planes::Deep { .. } => false,
    };
    if (f.bits == 8) != eight {
        return (Err(codec("AV1 planes do not match the bit depth")), Ghost(none));
    }
    if f.matrix == 0 && !mono {
        if f.layout != 3 {
            return (Err(codec("identity matrix with subsampled chroma")), Ghost(none));
        }
        match &f.planes {
            Av1Planes::Eight { y, u, v } => {
                let s = f.y_stride;
                if !(fits(y.len(), f.width, f.height, s) && fits(u.len(), f.width, f.height, s) && fits(v.len(), f.width, f.height, s)) {
                    return (Err(codec("AV1 plane is smaller than its stride says")), Ghost(none));
                }
                let out = shuffle_gbr(y.as_slice(), u.as_slice(), v.as_slice(), f.width, f.height, s);
                assert(out@ =~= gbr_seq(y@, u@, v@, f.width, f.height, s as int));
                return (Ok((ColorType::Rgb, Samples::U8(out))), Ghost(none));
            },
            Av1Planes::Deep { y, u, v } => {
                let s = f.y_stride / 2;
                if !(fits(y.len(), f.width, f.height, s) && fits(u.len(), f.width, f.height, s) && fits(v.len(), f.width, f.height, s)) {
                    return (Err(codec("AV1 plane is smaller than its stride says")), Ghost(none));
                }
                let out = shuffle_gbr(y.as_slice(), u.as_slice(), v.as_slice(), f.width, f.height, s);
                assert(out@ =~= gbr_seq(y@, u@, v@, f.width, f.height, s as int));
                let out = widen_all(out, f.bits);
                return (Ok((ColorType::Rgb, Samples::U16(out))), Ghost(none));
            },
        }
    }
    let m: u8 = if f.matrix == 1 {
        1
    } else if f.matrix == 2 || f.matrix == 5 || f.matrix == 6 {
        0
    } else if f.matrix == 4 {
        4
    } else if f.matrix == 7 {
        3
    } else if f.matrix == 9 {
        2
    } else {
        let mut s = String::new();
        push_str(&mut s, "unsupported AV1 matrix coefficients ");
        push_str(&mut s, matrix_text(f.matrix));
        return (Err(Error::Codec(s)), Ghost(none));
    };
    if f.width > u32::MAX / 3 {
        return (Err(codec("output buffer size overflow")), Ghost(none));
    }
    let n = match px.checked_mul(3) {
        Some(n) => n,
        None => return (Err(codec("output buffer size overflow")), Ghost(none)),
    };
    let color = if mono { ColorType::Gray } else { ColorType::Rgb };
    match &f.planes {
        Av1Planes::Eight { y, u, v } => {
            let mut out = zeroed_bytes(n);
            assert(out@ =~= zeros(f.width * f.height * 3, 0u8));
            let r = if f.layout == 0 {
                yuv400_to_rgb(y.as_slice(), f.y_stride, f.width, f.height, f.full_range, m, &mut out)
            } else if f.layout == 1 {
                yuv420_to_rgb(y.as_slice(), f.y_stride, u.as_slice(), f.uv_stride, v.as_slice(), f.uv_stride, f.width, f.height, f.full_range, m, &mut out)
            } else if f.layout == 2 {
                yuv422_to_rgb(y.as_slice(), f.y_stride, u.as_slice(), f.uv_stride, v.as_slice(), f.uv_stride, f.width, f.height, f.full_range, m, &mut out)
            } else {
                yuv444_to_rgb(y.as_slice(), f.y_stride, u.as_slice(), f.uv_stride, v.as_slice(), f.uv_stride, f.width, f.height, f.full_range, m, &mut out)
            };
            match r {
                Ok(()) => {
                    let ghost o = Ok::<SampleData, Seq<char>>(SampleData::U8(out@));
                    (Ok((color, Samples::U8(keep_channels(out, ch)))), Ghost(o))
                },
                Err(e) => {
                    let ghost o = Err::<SampleData, Seq<char>>(e@);
                    (Err(Error::Codec(e)), Ghost(o))
                },
            }
        },
        Av1Planes::Deep { y, u, v } => {
            let mut out = zeroed_words(n);
            let (ys, cs) = (f.y_stride / 2, f.uv_stride / 2);
            let (w, h, full) = (f.width, f.height, f.full_range);
            let (ys_, us_, vs_) = (y.as_slice(), u.as_slice(), v.as_slice());
            let r = if f.layout == 0 {
                if f.bits == 10 { y010_to_rgb10(ys_, ys, w, h, full, m, &mut out) } else { y012_to_rgb12(ys_, ys, w, h, full, m, &mut out) }
            } else if f.bits == 10 {
                if f.layout == 1 {
                    i010_to_rgb10(ys_, ys, us_, cs, vs_, cs, w, h, full, m, &mut out)
                } else if f.layout == 2 {
                    i210_to_rgb10(ys_, ys, us_, cs, vs_, cs, w, h, full, m, &mut out)
                } else {
                    i410_to_rgb10(ys_, ys, us_, cs, vs_, cs, w, h, full, m, &mut out)
                }
            } else {
                if f.layout == 1 {
                    i012_to_rgb12(ys_, ys, us_, cs, vs_, cs, w, h, full, m, &mut out)
                } else if f.layout == 2 {
                    i212_to_rgb12(ys_, ys, us_, cs, vs_, cs, w, h, full, m, &mut out)
                } else {
                    i412_to_rgb12(ys_, ys, us_, cs, vs_, cs, w, h, full, m, &mut out)
                }
            };
            match r {
                Ok(()) => {
                    let ghost o = Ok::<SampleData, Seq<char>>(SampleData::U16(out@));
                    let out = widen_all(out, f.bits);
                    (Ok((color, Samples::U16(keep_channels(out, ch)))), Ghost(o))
                },
                Err(e) => {
                    let ghost o = Err::<SampleData, Seq<char>>(e@);
                    (Err(Error::Codec(e)), Ghost(o))
                },
            }
        },
    }
}

/// Whether a plane of `len` samples holds `height` rows of `width`
/// samples, `stride` apart.
fn fits(len: usize, width: u32, height: u32, stride: u32) -> (r: bool)
    ensures
        r == plane_fits(len as int, width as int, height as int, stride as int),
{
    if width == 0 || height == 0 {
        return true;
    }
    let rows = (height - 1) as u128;
    assert(rows * (stride as u128) <= 0xFFFF_FFFFu128 * 0xFFFF_FFFFu128) by (nonlinear_arith)
        requires rows <= 0xFFFF_FFFFu128, stride <= 0xFFFF_FFFFu32;
    rows * (stride as u128) + (width as u128) <= len as u128
}

/// An AV1 decoder.
#[verifier::external_type_specification]
#[verifier::external_body]
pub struct ExAv1Decoder(Av1Decoder);

/// A decoded AV1 picture.
#[verifier::external_type_specification]
#[verifier::external_body]
pub struct ExPicture(Picture);

/// What handing data to the decoder gives.
pub enum Av1Step {
    /// Taken.
    Done,
    /// The decoder wants its pictures taken first.
    Again,
    /// The decoder's message.
    Failed(String),
}

/// What asking the decoder for a picture gives.
pub enum PictureStep {
    /// A picture.
    Ready(Picture),
    /// No picture yet.
    Again,
    /// The decoder's message.
    Failed(String),
}

/// `Settings::new` with `set_n_threads(1)` and `set_max_frame_delay(1)`,
/// `Decoder::with_settings`, then `send_data` on that fresh decoder with a
/// copy of the payload and no offset, timestamp or duration: the decoder
/// and that outcome by its variant, or the message of its creation.
/// Nothing more is stated of it.
#[verifier::external_body]
fn av1_start(obu: &[u8]) -> (r: Result<(Av1Decoder, Av1Step), String>) {
    let mut settings = Settings::new();
    settings.set_n_threads(1);
    settings.set_max_frame_delay(1);
    let mut d = Av1Decoder::with_settings(&settings).map_err(|e| e.to_string())?;
    let step = match d.send_data(obu.to_vec(), None, None, None) {
        Ok(()) => Av1Step::Done,
        Err(Av1Error::Again) => Av1Step::Again,
        Err(e) => Av1Step::Failed(e.to_string()),
    };
    Ok((d, step))
}

/// `Decoder::send_pending_data`, the outcome by its variant. Nothing is
/// stated of it.
#[verifier::external_body]
fn av1_send_pending(d: &mut Av1Decoder) -> (r: Av1Step) {
    match d.send_pending_data() {
        Ok(()) => Av1Step::Done,
        Err(Av1Error::Again) => Av1Step::Again,
        Err(e) => Av1Step::Failed(e.to_string()),
    }
}

/// `Decoder::get_picture`, the outcome by its variant. Nothing is stated
/// of it.
#[verifier::external_body]
fn av1_picture(d: &mut Av1Decoder) -> (r: PictureStep) {
    match d.get_picture() {
        Ok(p) => PictureStep::Ready(p),
        Err(Av1Error::Again) => PictureStep::Again,
        Err(e) => PictureStep::Failed(e.to_string()),
    }
}

/// `Picture::width`, `height`, `bit_depth`, `pixel_layout` (as `0` I400
/// to `3` I444), whether `color_range` is full, `matrix_coefficients` by
/// its number, and `stride` of the Y and U planes. Only the layout's
/// range is stated.
#[verifier::external_body]
fn av1_info(p: &Picture) -> (r: (u32, u32, u64, u8, bool, u8, u32, u32))
    ensures
        r.3 <= 3,
{
    let layout = match p.pixel_layout() { PixelLayout::I400 => 0, PixelLayout::I420 => 1, PixelLayout::I422 => 2, PixelLayout::I444 => 3 };
    let full = match p.color_range() { YUVRange::Full => true, YUVRange::Limited => false };
    let (y, u) = (p.stride(PlanarImageComponent::Y), p.stride(PlanarImageComponent::U));
    (p.width(), p.height(), p.bit_depth() as u64, layout, full, p.matrix_coefficients() as u8, y, u)
}

/// `Picture::plane` for Y, U and V, copied as bytes; only Y for an I400
/// picture, which has no chroma planes. Nothing is stated of them.
#[verifier::external_body]
fn av1_planes8(p: &Picture) -> (r: (Vec<u8>, Vec<u8>, Vec<u8>)) {
    let y = p.plane(PlanarImageComponent::Y).to_vec();
    match p.pixel_layout() {
        PixelLayout::I400 => (y, Vec::new(), Vec::new()),
        PixelLayout::I420 | PixelLayout::I422 | PixelLayout::I444 => {
            (y, p.plane(PlanarImageComponent::U).to_vec(), p.plane(PlanarImageComponent::V).to_vec())
        },
    }
}

/// `Picture::plane` for Y, U and V, each byte pair read with
/// `u16::from_ne_bytes`, as the decoder stores deep samples in the
/// machine's order; only Y for an I400 picture. Nothing is stated of them.
#[verifier::external_body]
fn av1_planes16(p: &Picture) -> (r: (Vec<u16>, Vec<u16>, Vec<u16>)) {
    let y = p.plane(PlanarImageComponent::Y).chunks_exact(2).map(|b| u16::from_ne_bytes([b[0], b[1]])).collect();
    match p.pixel_layout() {
        PixelLayout::I400 => (y, Vec::new(), Vec::new()),
        PixelLayout::I420 | PixelLayout::I422 | PixelLayout::I444 => {
            let u = p.plane(PlanarImageComponent::U).chunks_exact(2).map(|b| u16::from_ne_bytes([b[0], b[1]])).collect();
            (y, u, p.plane(PlanarImageComponent::V).chunks_exact(2).map(|b| u16::from_ne_bytes([b[0], b[1]])).collect())
        },
    }
}

/// A picture's planes and description as plain values: 8-bit planes for
/// an 8-bit picture, 16-bit ones otherwise; no chroma for monochrome.
pub fn av1_frame(p: &Picture) -> (r: Av1Frame)
    ensures
        r.layout <= 3,
        (r.bits == 8) == (r.planes is Eight),
{
    let (width, height, bits, layout, full_range, matrix, y_stride, uv_stride) = av1_info(p);
    let planes = if bits == 8 {
        let (y, u, v) = av1_planes8(p);
        Av1Planes::Eight { y, u, v }
    } else {
        let (y, u, v) = av1_planes16(p);
        Av1Planes::Deep { y, u, v }
    };
    Av1Frame { width, height, bits, layout, full_range, matrix, y_stride, uv_stride, planes }
}

/// How many times the decoder is asked for more before a payload is
/// taken to hold no picture.
pub const AV1_ROUNDS: u64 = 1_000_000;

/// Decodes one still AV1 temporal unit to a picture: the payload handed
/// over (the decoder asking again is no error), then pictures asked for,
/// pending data handed over between asks, until one comes.
///
/// # Errors
/// The decoder's messages as `Codec`; `Codec` "AV1 payload holds no
/// picture" when the pending data is all taken with no picture, or the
/// decoder still asks again after [`AV1_ROUNDS`] rounds.
pub fn decode_av1(obu: &[u8]) -> (r: Result<Picture, Error>)
    ensures
        r matches Err(e) ==> e is Codec,
{
    let mut d = match av1_start(obu) {
        Ok((d, Av1Step::Done)) | Ok((d, Av1Step::Again)) => d,
        Ok((_, Av1Step::Failed(m))) => return Err(Error::Codec(m)),
        Err(m) => return Err(Error::Codec(m)),
    };
    let mut rounds: u64 = 0;
    while rounds < AV1_ROUNDS
        decreases AV1_ROUNDS - rounds,
    {
        match av1_picture(&mut d) {
            PictureStep::Ready(p) => return Ok(p),
            PictureStep::Failed(m) => return Err(Error::Codec(m)),
            PictureStep::Again => match av1_send_pending(&mut d) {
                Av1Step::Done => {
                    return match av1_picture(&mut d) {
                        PictureStep::Ready(p) => Ok(p),
                        PictureStep::Again => Err(codec("AV1 payload holds no picture")),
                        PictureStep::Failed(m) => Err(Error::Codec(m)),
                    };
                },
                Av1Step::Again => {},
                Av1Step::Failed(m) => return Err(Error::Codec(m)),
            },
        }
        rounds = rounds + 1;
    }
    Err(codec("AV1 payload holds no picture"))
}

} // verus!
