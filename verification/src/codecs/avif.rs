//! AVIF sniffing, and the sample shuffles that turn decoded AV1 planes
//! into interleaved pixels: alpha interleaving with the premultiplication
//! undone, GBR planes to RGB, bit replication to the full 16-bit range.

use vstd::prelude::*;
use vstd::arithmetic::div_mod::lemma_fundamental_div_mod_converse;
use crate::bytes::{be32_at, read_be32};
use crate::format::{Format, FormatInfo, DecoderCaps, Tier};
use crate::codecs::av1::{Av1Frame, av1_frame, conversion_fits, decode_av1, rgb_is, spec_to_rgb, to_rgb};
use crate::error::Error;
use crate::image::{ColorType, Image, SampleData, Samples, blob_view, new_result_ok, spec_channels};
use crate::params::DecodeOpts;
use crate::text::{decimal, push_decimal, push_str};

verus! {

/// An unsigned sample type with a largest value.
pub trait Sample: Copy {
    /// The sample's value.
    spec fn val(self) -> int;

    /// The largest value of the type.
    spec fn max_val() -> int;

    /// The sample's value, for code.
    fn value(self) -> (r: u32)
        ensures
            r == self.val(),
            r <= Self::max_val(),
    ;

    /// The largest value, for code.
    fn max_value() -> (r: u32)
        ensures
            r == Self::max_val(),
            1 <= r <= 0xFFFF,
    ;

    /// The sample of a value that fits.
    fn from_value(v: u32) -> (r: Self)
        requires
            v <= Self::max_val(),
        ensures
            r.val() == v,
    ;
}

impl Sample for u8 {
    open spec fn val(self) -> int {
        self as int
    }

    open spec fn max_val() -> int {
        255
    }

    fn value(self) -> (r: u32) {
        self as u32
    }

    fn max_value() -> (r: u32) {
        255
    }

    fn from_value(v: u32) -> (r: u8) {
        v as u8
    }
}

impl Sample for u16 {
    open spec fn val(self) -> int {
        self as int
    }

    open spec fn max_val() -> int {
        65535
    }

    fn value(self) -> (r: u32) {
        self as u32
    }

    fn max_value() -> (r: u32) {
        65535
    }

    fn from_value(v: u32) -> (r: u16) {
        v as u16
    }
}

/// A premultiplied colour value made straight again, rounded, at most
/// the maximum.
pub open spec fn unpremultiplied(c: int, a: int, max: int) -> int {
    let v = (c * max + a / 2) / a;
    if v < max { v } else { max }
}

/// Sample `i` of colour pixels of `ch` channels with one alpha sample
/// after each, the premultiplication undone where asked and where alpha is
/// neither zero nor full.
pub open spec fn interleaved_at<T: Sample>(color: Seq<T>, alpha: Seq<T>, ch: int, premultiplied: bool, i: int) -> int {
    let p = i / (ch + 1);
    let k = i % (ch + 1);
    let a = alpha[p].val();
    if k == ch {
        a
    } else {
        let c = color[p * ch + k].val();
        if premultiplied && 0 < a < T::max_val() { unpremultiplied(c, a, T::max_val()) } else { c }
    }
}

/// How many whole pixels have both colour and alpha.
pub open spec fn interleaved_pixels<T>(color: Seq<T>, alpha: Seq<T>, ch: int) -> int {
    let n = (color.len() as int) / ch;
    if n < alpha.len() { n } else { alpha.len() as int }
}

/// Interleaves one alpha sample after every pixel, undoing
/// premultiplication on the way when the container says so.
pub fn interleave<T: Sample>(color: &[T], alpha: &[T], ch: usize, premultiplied: bool) -> (r: Vec<T>)
    requires
        ch >= 1,
    ensures
        r@.len() == interleaved_pixels(color@, alpha@, ch as int) * (ch + 1),
        forall|i: int| 0 <= i < r@.len() ==> (#[trigger] r@[i]).val() == interleaved_at(color@, alpha@, ch as int, premultiplied, i),
{
    let max = T::max_value();
    let cl = color.len();
    let n = if color.len() / ch < alpha.len() { color.len() / ch } else { alpha.len() };
    proof {
        assert(n * ch <= color@.len()) by (nonlinear_arith)
            requires n <= (color@.len() as int) / (ch as int), ch >= 1;
    }
    let mut out: Vec<T> = Vec::new();
    let mut p: usize = 0;
    while p < n
        invariant
            ch >= 1,
            max == T::max_val(),
            1 <= max <= 0xFFFF,
            cl == color@.len(),
            n == interleaved_pixels(color@, alpha@, ch as int),
            n * ch <= color@.len(),
            n <= alpha@.len(),
            p <= n,
            out@.len() == p * (ch + 1),
            forall|i: int| 0 <= i < out@.len() ==> (#[trigger] out@[i]).val() == interleaved_at(color@, alpha@, ch as int, premultiplied, i),
        decreases n - p,
    {
        proof {
            assert(p * ch + ch <= n * ch) by (nonlinear_arith)
                requires p < n;
        }
        let a = alpha[p];
        let a32 = a.value();
        let straighten = premultiplied && a32 > 0 && a32 < max;
        let base = p * ch;
        let mut k: usize = 0;
        while k < ch
            invariant
                ch >= 1,
                max == T::max_val(),
                1 <= max <= 0xFFFF,
                p < n,
                n * ch <= color@.len(),
                n <= alpha@.len(),
                base == p * ch,
                cl == color@.len(),
                base + ch <= color@.len(),
                a == alpha@[p as int],
                a32 == a.val(),
                straighten == (premultiplied && 0 < a32 < max),
                k <= ch,
                out@.len() == p * (ch + 1) + k,
                forall|i: int| 0 <= i < out@.len() ==> (#[trigger] out@[i]).val() == interleaved_at(color@, alpha@, ch as int, premultiplied, i),
            decreases ch - k,
        {
            let c = color[base + k];
            let c32 = c.value();
            let v = if straighten {
                proof {
                    assert(c32 * max <= 0xFFFF * 0xFFFF) by (nonlinear_arith)
                        requires c32 <= max, max <= 0xFFFF;
                    assert(c32 * max + a32 / 2 <= 0xFFFF * 0xFFFF + 0xFFFF) by (nonlinear_arith)
                        requires c32 <= max, max <= 0xFFFF, a32 <= 0xFFFF;
                }
                let q = (c32 * max + a32 / 2) / a32;
                T::from_value(if q < max { q } else { max })
            } else {
                c
            };
            proof {
                lemma_fundamental_div_mod_converse(p * (ch + 1) + k, (ch + 1) as int, p as int, k as int);
            }
            out.push(v);
            k = k + 1;
        }
        proof {
            lemma_fundamental_div_mod_converse(p * (ch + 1) + ch, (ch + 1) as int, p as int, ch as int);
        }
        out.push(a);
        p = p + 1;
        assert((p - 1) * (ch + 1) + ch + 1 == p * (ch + 1)) by (nonlinear_arith);
    }
    out
}

/// A `bits`-wide sample scaled to the full 16-bit range by bit
/// replication, so that the maximum maps to `0xFFFF`; unchanged for other
/// widths.
pub open spec fn widened(s: u16, bits: u32) -> u16 {
    if bits == 10 {
        (s << 6u16) | (s >> 4u16)
    } else if bits == 12 {
        (s << 4u16) | (s >> 8u16)
    } else {
        s
    }
}

/// Scales `bits`-wide samples to the full 16-bit range, in place.
pub fn widen(v: &mut [u16], bits: u32)
    ensures
        final(v)@.len() == old(v)@.len(),
        forall|i: int| 0 <= i < old(v)@.len() ==> #[trigger] final(v)@[i] == widened(old(v)@[i], bits),
{
    let n = v.len();
    let mut i: usize = 0;
    while i < n
        invariant
            n == v@.len(),
            n == old(v)@.len(),
            i <= n,
            forall|j: int| 0 <= j < i ==> #[trigger] v@[j] == widened(old(v)@[j], bits),
            forall|j: int| i <= j < n ==> #[trigger] v@[j] == old(v)@[j],
        decreases n - i,
    {
        let s = v[i];
        let w = if bits == 10 {
            (s << 6u16) | (s >> 4u16)
        } else if bits == 12 {
            (s << 4u16) | (s >> 8u16)
        } else {
            s
        };
        v[i] = w;
        i = i + 1;
    }
}

/// Whether every pixel of a `width` by `height` plane with rows `stride`
/// apart is inside a buffer of `len` samples.
pub open spec fn plane_fits(len: int, width: int, height: int, stride: int) -> bool {
    width == 0 || height == 0 || (height - 1) * stride + width <= len
}

/// Sample `i` of the RGB interleave of G, B, R planes.
pub open spec fn gbr_at<T>(green: Seq<T>, blue: Seq<T>, red: Seq<T>, width: int, stride: int, i: int) -> T {
    let px = i / 3;
    let at = (px / width) * stride + px % width;
    if i % 3 == 0 { red[at] } else if i % 3 == 1 { green[at] } else { blue[at] }
}

/// Interleaves three planes of equal stride as R, G, B from G, B, R.
pub fn shuffle_gbr<T: Copy>(green: &[T], blue: &[T], red: &[T], width: u32, height: u32, stride: u32) -> (r: Vec<T>)
    requires
        plane_fits(green@.len() as int, width as int, height as int, stride as int),
        plane_fits(blue@.len() as int, width as int, height as int, stride as int),
        plane_fits(red@.len() as int, width as int, height as int, stride as int),
    ensures
        r@.len() == width * height * 3,
        forall|i: int| 0 <= i < r@.len() ==> #[trigger] r@[i] == gbr_at(green@, blue@, red@, width as int, stride as int, i),
{
    let (w, h, s) = (width as usize, height as usize, stride as usize);
    let (gl, bl, rl) = (green.len(), blue.len(), red.len());
    let mut out: Vec<T> = Vec::new();
    let mut row: usize = 0;
    while row < h
        invariant
            w == width,
            h == height,
            s == stride,
            gl == green@.len() && bl == blue@.len() && rl == red@.len(),
            plane_fits(green@.len() as int, w as int, h as int, s as int),
            plane_fits(blue@.len() as int, w as int, h as int, s as int),
            plane_fits(red@.len() as int, w as int, h as int, s as int),
            row <= h,
            out@.len() == row * w * 3,
            forall|i: int| 0 <= i < out@.len() ==> #[trigger] out@[i] == gbr_at(green@, blue@, red@, w as int, s as int, i),
        decreases h - row,
    {
        let mut col: usize = 0;
        while col < w
            invariant
                w == width,
                h == height,
                s == stride,
                gl == green@.len() && bl == blue@.len() && rl == red@.len(),
                plane_fits(green@.len() as int, w as int, h as int, s as int),
                plane_fits(blue@.len() as int, w as int, h as int, s as int),
                plane_fits(red@.len() as int, w as int, h as int, s as int),
                row < h,
                col <= w,
                out@.len() == (row * w + col) * 3,
                forall|i: int| 0 <= i < out@.len() ==> #[trigger] out@[i] == gbr_at(green@, blue@, red@, w as int, s as int, i),
            decreases w - col,
        {
            proof {
                assert(row * s + col < (h - 1) * s + w) by (nonlinear_arith)
                    requires row < h, col < w;
                assert(row * s <= row * s + col);
                lemma_fundamental_div_mod_converse(row * w + col, w as int, row as int, col as int);
                let px = row * w + col;
                lemma_fundamental_div_mod_converse(px * 3, 3, px as int, 0);
                lemma_fundamental_div_mod_converse(px * 3 + 1, 3, px as int, 1);
                lemma_fundamental_div_mod_converse(px * 3 + 2, 3, px as int, 2);
            }
            let at = row * s + col;
            out.push(red[at]);
            out.push(green[at]);
            out.push(blue[at]);
            col = col + 1;
        }
        row = row + 1;
        assert((row - 1) * w + w == row * w) by (nonlinear_arith);
    }
    assert(h * w * 3 == w * h * 3) by (nonlinear_arith);
    out
}

/// The first `channels` of every whole RGB triple.
pub open spec fn kept_channels<T>(rgb: Seq<T>, channels: int) -> Seq<T> {
    if channels == 3 {
        rgb
    } else {
        Seq::new(((rgb.len() as int) / 3 * channels) as nat, |i: int| rgb[(i / channels) * 3 + i % channels])
    }
}

/// Keeps the first `channels` of every RGB triple; the identity for 3.
pub fn keep_channels<T: Copy>(rgb: Vec<T>, channels: usize) -> (r: Vec<T>)
    requires
        1 <= channels <= 3,
    ensures
        r@ == kept_channels(rgb@, channels as int),
{
    if channels == 3 {
        return rgb;
    }
    let len = rgb.len();
    let n = len / 3;
    let ghost target = kept_channels(rgb@, channels as int);
    let mut out: Vec<T> = Vec::new();
    let mut p: usize = 0;
    while p < n
        invariant
            1 <= channels < 3,
            len == rgb@.len(),
            n == (rgb@.len() as int) / 3,
            target == kept_channels(rgb@, channels as int),
            p <= n,
            out@ == target.subrange(0, p * channels),
        decreases n - p,
    {
        let mut k: usize = 0;
        while k < channels
            invariant
                1 <= channels < 3,
                len == rgb@.len(),
                n == (rgb@.len() as int) / 3,
                target == kept_channels(rgb@, channels as int),
                p < n,
                k <= channels,
                out@ == target.subrange(0, p * channels + k),
            decreases channels - k,
        {
            proof {
                lemma_fundamental_div_mod_converse(p * channels + k, channels as int, p as int, k as int);
                assert(p * channels + k < n * channels) by (nonlinear_arith)
                    requires p < n, k < channels;
                assert(p * 3 + k < n * 3) by (nonlinear_arith)
                    requires p < n, k < 3;
            }
            out.push(rgb[p * 3 + k]);
            k = k + 1;
            assert(out@ =~= target.subrange(0, p * channels + k));
        }
        p = p + 1;
        assert((p - 1) * channels + channels == p * channels) by (nonlinear_arith);
    }
    assert(out@ =~= target);
    out
}

/// `avif` or `avis`.
pub open spec fn is_avif_brand(b: int) -> bool {
    b == 0x6176_6966 || b == 0x6176_6973
}

/// The brand sniff: an `ftyp` box whose major brand, or one of the whole
/// compatible brands inside its declared size, is `avif` or `avis`;
/// animated when the major brand is `avis`.
pub open spec fn spec_avif_probe(b: Seq<u8>) -> Option<FormatInfo> {
    if b.len() < 12 || be32_at(b, 4) != 0x6674_7970 {
        None
    } else {
        let size = if be32_at(b, 0) < b.len() { be32_at(b, 0) } else { b.len() as int };
        let count = if size >= 16 { (size - 16) / 4 } else { 0 };
        if is_avif_brand(be32_at(b, 8)) || exists|j: int| 0 <= j < count && is_avif_brand(#[trigger] be32_at(b, 16 + 4 * j)) {
            Some(FormatInfo { format: Format::Avif, animated: be32_at(b, 8) == 0x6176_6973 })
        } else {
            None
        }
    }
}

/// What `avif-parse` reads of the container: the primary item's AV1
/// payload, the alpha item's if there is one, and whether the colour is
/// premultiplied by the alpha; or the crate's message.
pub uninterp spec fn avif_parsed(bytes: Seq<u8>) -> Result<(Seq<u8>, Option<Seq<u8>>, bool), Seq<char>>;

/// `avif_parse::read_avif` over the bytes: `primary_item`, `alpha_item`
/// and `premultiplied_alpha`, copied. The contract names them.
#[verifier::external_body]
fn avif_items(bytes: &[u8]) -> (r: Result<(Vec<u8>, Option<Vec<u8>>, bool), String>)
    ensures
        match r {
            Ok((p, a, pre)) => avif_parsed(bytes@) == Ok::<(Seq<u8>, Option<Seq<u8>>, bool), Seq<char>>((p@, blob_view(a), pre)),
            Err(m) => avif_parsed(bytes@) == Err::<(Seq<u8>, Option<Seq<u8>>, bool), Seq<char>>(m@),
        },
{
    let d = avif_parse::read_avif(&mut std::io::Cursor::new(bytes)).map_err(|e| e.to_string())?;
    Ok((d.primary_item.to_vec(), d.alpha_item.map(|a| a.to_vec()), d.premultiplied_alpha))
}

/// The largest frame size the AV1 sequence header of a payload declares;
/// or `avif-parse`'s message.
pub uninterp spec fn av1_max_frame(obu: Seq<u8>) -> Result<(u32, u32), Seq<char>>;

/// `AV1Metadata::parse_av1_bitstream`: `max_frame_width` and
/// `max_frame_height`, both non-zero as their type says. The contract
/// names them.
#[verifier::external_body]
fn av1_metadata(obu: &[u8]) -> (r: Result<(u32, u32), String>)
    ensures
        match r {
            Ok(s) => av1_max_frame(obu@) == Ok::<(u32, u32), Seq<char>>(s) && s.0 >= 1 && s.1 >= 1,
            Err(m) => av1_max_frame(obu@) == Err::<(u32, u32), Seq<char>>(m@),
        },
{
    let m = avif_parse::AV1Metadata::parse_av1_bitstream(obu).map_err(|e| e.to_string())?;
    Ok((m.max_frame_width.get(), m.max_frame_height.get()))
}

/// Alpha samples at 8 bits: 16-bit ones keep their high byte.
pub open spec fn alpha8(a: SampleData) -> Seq<u8> {
    match a {
        SampleData::U8(v) => v,
        SampleData::U16(v) => Seq::new(v.len(), |i: int| (v[i] / 256) as u8),
        SampleData::F32(_) => Seq::empty(),
    }
}

/// Alpha samples at 16 bits: 8-bit ones replicated, times 257.
pub open spec fn alpha16(a: SampleData) -> Seq<u16> {
    match a {
        SampleData::U16(v) => v,
        SampleData::U8(v) => Seq::new(v.len(), |i: int| (v[i] * 257) as u16),
        SampleData::F32(_) => Seq::empty(),
    }
}

/// Colour samples of `ch` channels with the alpha interleaved after each
/// pixel, at the colour's depth.
pub open spec fn merged(color: SampleData, alpha: SampleData, ch: int, pre: bool) -> SampleData {
    match color {
        SampleData::U8(c) => {
            let a = alpha8(alpha);
            SampleData::U8(Seq::new((interleaved_pixels(c, a, ch) * (ch + 1)) as nat, |i: int| interleaved_at(c, a, ch, pre, i) as u8))
        },
        SampleData::U16(c) => {
            let a = alpha16(alpha);
            SampleData::U16(Seq::new((interleaved_pixels(c, a, ch) * (ch + 1)) as nat, |i: int| interleaved_at(c, a, ch, pre, i) as u16))
        },
        SampleData::F32(c) => SampleData::F32(c),
    }
}

/// Alpha samples brought to 8 bits.
fn to_alpha8(a: &Samples) -> (r: Vec<u8>)
    ensures
        r@ == alpha8(a@),
{
    match a {
        Samples::U8(v) => v.clone(),
        Samples::U16(v) => {
            let mut out: Vec<u8> = Vec::new();
            let mut i: usize = 0;
            while i < v.len()
                invariant
                    i <= v@.len(),
                    out@ == Seq::new(i as nat, |j: int| (v@[j] / 256) as u8),
                decreases v@.len() - i,
            {
                out.push((v[i] / 256) as u8);
                i = i + 1;
                assert(out@ =~= Seq::new(i as nat, |j: int| (v@[j] / 256) as u8));
            }
            assert(out@ =~= alpha8(a@));
            out
        },
        Samples::F32(_) => Vec::new(),
    }
}

/// Alpha samples brought to 16 bits.
fn to_alpha16(a: &Samples) -> (r: Vec<u16>)
    ensures
        r@ == alpha16(a@),
{
    match a {
        Samples::U16(v) => v.clone(),
        Samples::U8(v) => {
            let mut out: Vec<u16> = Vec::new();
            let mut i: usize = 0;
            while i < v.len()
                invariant
                    i <= v@.len(),
                    out@ == Seq::new(i as nat, |j: int| (v@[j] * 257) as u16),
                decreases v@.len() - i,
            {
                out.push((v[i] as u16) * 257);
                i = i + 1;
                assert(out@ =~= Seq::new(i as nat, |j: int| (v@[j] * 257) as u16));
            }
            assert(out@ =~= alpha16(a@));
            out
        },
        Samples::F32(_) => Vec::new(),
    }
}

/// Interleaves an alpha plane into colour samples of `ch` channels,
/// bringing the alpha to the colour's depth first and undoing
/// premultiplication when asked.
pub fn merge_alpha(color: Samples, alpha: &Samples, ch: usize, premultiplied: bool) -> (r: Samples)
    requires
        ch >= 1,
    ensures
        r@ == merged(color@, alpha@, ch as int, premultiplied),
{
    match color {
        Samples::U8(c) => {
            let a = to_alpha8(alpha);
            let out = interleave(c.as_slice(), a.as_slice(), ch, premultiplied);
            assert(out@ =~= Seq::new((interleaved_pixels(c@, a@, ch as int) * (ch + 1)) as nat, |i: int| interleaved_at(c@, a@, ch as int, premultiplied, i) as u8));
            Samples::U8(out)
        },
        Samples::U16(c) => {
            let a = to_alpha16(alpha);
            let out = interleave(c.as_slice(), a.as_slice(), ch, premultiplied);
            assert(out@ =~= Seq::new((interleaved_pixels(c@, a@, ch as int) * (ch + 1)) as nat, |i: int| interleaved_at(c@, a@, ch as int, premultiplied, i) as u16));
            Samples::U16(out)
        },
        Samples::F32(c) => Samples::F32(c),
    }
}

/// The layout with an alpha channel added.
pub open spec fn with_alpha(c: ColorType) -> ColorType {
    if c == ColorType::Gray { ColorType::GrayAlpha } else { ColorType::Rgba }
}

/// The message for an alpha item whose size differs from the colour's.
pub open spec fn alpha_size_message(aw: u32, ah: u32, w: u32, h: u32) -> Seq<char> {
    "alpha item is "@ + decimal(aw as nat) + "x"@ + decimal(ah as nat) + ", colour item is "@ + decimal(w as nat) + "x"@
        + decimal(h as nat)
}

/// What an AVIF decodes to once its AV1 payloads have been decoded to
/// `color` and, when the container has an alpha item, `alpha` (a picture
/// or the decoder's message), `cout` and the alpha's second part standing
/// for what their `yuv` conversions gave where that is not named: the pixel limit on the picture's size, the
/// conversion of the colour, then without alpha the image, with alpha a
/// size check, the conversion of the alpha and the two interleaved.
pub open spec fn avif_from_frames(r: Result<Image, Error>, color: Result<Av1Frame, Seq<char>>, cout: Result<SampleData, Seq<char>>, alpha: Option<(Result<Av1Frame, Seq<char>>, Result<SampleData, Seq<char>>)>, pre: bool, opts: DecodeOpts) -> bool {
    match color {
        Err(m) => r matches Err(Error::Codec(s)) && s@ == m,
        Ok(c) => if c.width * c.height > opts.max_pixels {
            r matches Err(Error::TooLarge { pixels, limit }) && pixels == c.width * c.height && limit == opts.max_pixels
        } else {
            match spec_to_rgb(c, cout) {
                Err(m) => r matches Err(Error::Codec(s)) && s@ == m,
                Ok((ct, cs)) => match alpha {
                    None => new_result_ok(r, c.width, c.height, ct, cs),
                    Some((Err(m), _)) => r matches Err(Error::Codec(s)) && s@ == m,
                    Some((Ok(a), aout)) => if a.width != c.width || a.height != c.height {
                        r matches Err(Error::Codec(s)) && s@ == alpha_size_message(a.width, a.height, c.width, c.height)
                    } else {
                        match spec_to_rgb(a, aout) {
                            Err(m) => r matches Err(Error::Codec(s)) && s@ == m,
                            Ok((_, as_)) => new_result_ok(r, c.width, c.height, with_alpha(ct),
                                merged(cs, as_, spec_channels(ct) as int, pre)),
                        }
                    },
                },
            }
        },
    }
}

/// Whether, for some outcome of decoding the colour payload and, exactly
/// when there is one, the alpha payload, [`avif_from_frames`] holds.
pub open spec fn from_some_frames(r: Result<Image, Error>, has_alpha: bool, pre: bool, opts: DecodeOpts) -> bool {
    exists|c: Result<Av1Frame, Seq<char>>, co: Result<SampleData, Seq<char>>, al: Option<(Result<Av1Frame, Seq<char>>, Result<SampleData, Seq<char>>)>|
        (al is Some) == has_alpha && outcomes_fit(c, co, al) && #[trigger] avif_from_frames(r, c, co, al, pre, opts)
}

/// Every conversion outcome is of its picture's output size.
pub open spec fn outcomes_fit(c: Result<Av1Frame, Seq<char>>, co: Result<SampleData, Seq<char>>, al: Option<(Result<Av1Frame, Seq<char>>, Result<SampleData, Seq<char>>)>) -> bool {
    &&& (c matches Ok(f) ==> conversion_fits(f, co))
    &&& (al matches Some((Ok(a), ao)) ==> conversion_fits(a, ao))
}

/// What decoding AVIF bytes gives: the container's refusal, the AV1
/// header's, the pixel limit on the size it declares; then, for some
/// outcome of decoding the colour payload and, when there is one, the
/// alpha payload, what [`avif_from_frames`] says.
pub open spec fn avif_decode_ok(r: Result<Image, Error>, bytes: Seq<u8>, opts: DecodeOpts) -> bool {
    match avif_parsed(bytes) {
        Err(m) => r matches Err(Error::Codec(s)) && s@ == m,
        Ok((p, a, pre)) => match av1_max_frame(p) {
            Err(m) => r matches Err(Error::Codec(s)) && s@ == m,
            Ok((mw, mh)) => if mw * mh > opts.max_pixels {
                r matches Err(Error::TooLarge { pixels, limit }) && pixels == mw * mh && limit == opts.max_pixels
            } else {
                from_some_frames(r, a is Some, pre, opts)
            },
        },
    }
}

/// A decoded payload as a frame, or the decoder's message.
fn frame_of(obu: &[u8]) -> (r: Result<Av1Frame, String>)
{
    match decode_av1(obu) {
        Ok(p) => Ok(av1_frame(&p)),
        Err(Error::Codec(m)) => Err(m),
        Err(_) => {
            let mut m = String::new();
            push_str(&mut m, "AV1 payload holds no picture");
            Err(m)
        },
    }
}

/// The message for an alpha item of another size.
fn alpha_size_text(aw: u32, ah: u32, w: u32, h: u32) -> (r: String)
    ensures
        r@ == alpha_size_message(aw, ah, w, h),
{
    let mut m = String::new();
    push_str(&mut m, "alpha item is ");
    push_decimal(&mut m, aw as u64);
    push_str(&mut m, "x");
    push_decimal(&mut m, ah as u64);
    push_str(&mut m, ", colour item is ");
    push_decimal(&mut m, w as u64);
    push_str(&mut m, "x");
    push_decimal(&mut m, h as u64);
    m
}

/// The image of a decoded colour payload and, decoded only once the
/// colour has passed its checks, the alpha payload if there is one, as
/// [`avif_from_frames`] says for some outcome of the alpha decode.
fn from_frames(color: Result<Av1Frame, String>, alpha_obu: Option<&[u8]>, pre: bool, opts: &DecodeOpts) -> (r: Result<Image, Error>)
    ensures
        exists|co: Result<SampleData, Seq<char>>, al: Option<(Result<Av1Frame, Seq<char>>, Result<SampleData, Seq<char>>)>|
            (al is Some) == (alpha_obu is Some) && outcomes_fit(frame_view(&color), co, al)
                && #[trigger] avif_from_frames(r, frame_view(&color), co, al, pre, *opts),
{
    let ghost none: Result<SampleData, Seq<char>> = Err(Seq::empty());
    let ghost unused: Option<(Result<Av1Frame, Seq<char>>, Result<SampleData, Seq<char>>)> = match alpha_obu {
        Some(_) => Some((Err(Seq::empty()), none)),
        None => None,
    };
    let ghost cv = frame_view(&color);
    let c = match color {
        Ok(c) => c,
        Err(m) => {
            let r = Err(Error::Codec(m));
            assert(avif_from_frames(r, cv, none, unused, pre, *opts));
            return r;
        },
    };
    match opts.check_pixels(c.width, c.height) {
        Ok(()) => {},
        Err(e) => {
            let r = Err(e);
            assert(conversion_fits(c, none));
            assert(avif_from_frames(r, cv, none, unused, pre, *opts));
            return r;
        },
    }
    let crgb = to_rgb(&c);
    let ghost co = choose|out: Result<SampleData, Seq<char>>| conversion_fits(c, out) && #[trigger] rgb_is(crgb, spec_to_rgb(c, out));
    let (ct, cs) = match crgb {
        Ok(v) => v,
        Err(e) => {
            let r = Err(e);
            assert(avif_from_frames(r, cv, co, unused, pre, *opts));
            return r;
        },
    };
    let obu = match alpha_obu {
        None => {
            let r = Image::new(c.width, c.height, ct, cs);
            assert(avif_from_frames(r, cv, co, unused, pre, *opts));
            return r;
        },
        Some(o) => o,
    };
    let af = frame_of(obu);
    let ghost al = Some((frame_view(&af), none));
    let a = match af {
        Err(m) => {
            let r = Err(Error::Codec(m));
            assert(avif_from_frames(r, cv, co, al, pre, *opts));
            return r;
        },
        Ok(a) => a,
    };
    if a.width != c.width || a.height != c.height {
        let r = Err(Error::Codec(alpha_size_text(a.width, a.height, c.width, c.height)));
        assert(conversion_fits(a, none));
        assert(avif_from_frames(r, cv, co, al, pre, *opts));
        return r;
    }
    let argb = to_rgb(&a);
    let ghost ao = choose|out: Result<SampleData, Seq<char>>| conversion_fits(a, out) && #[trigger] rgb_is(argb, spec_to_rgb(a, out));
    let ghost al2 = Some((Ok::<Av1Frame, Seq<char>>(a), ao));
    let (_, as_) = match argb {
        Ok(v) => v,
        Err(e) => {
            let r = Err(e);
            assert(avif_from_frames(r, cv, co, al2, pre, *opts));
            return r;
        },
    };
    let with = if ct == ColorType::Gray { ColorType::GrayAlpha } else { ColorType::Rgba };
    let samples = merge_alpha(cs, &as_, ct.channels(), pre);
    let r = Image::new(c.width, c.height, with, samples);
    assert(avif_from_frames(r, cv, co, al2, pre, *opts));
    r
}

/// A decoded payload, as the spec reads it.
pub open spec fn frame_view(f: &Result<Av1Frame, String>) -> Result<Av1Frame, Seq<char>> {
    match f {
        Ok(x) => Ok(*x),
        Err(m) => Err(m@),
    }
}

/// A decoded alpha payload, if any, as the spec reads it.
pub open spec fn alpha_view(f: &Option<Result<Av1Frame, String>>) -> Option<Result<Av1Frame, Seq<char>>> {
    match f {
        Some(x) => Some(frame_view(x)),
        None => None,
    }
}

/// AVIF decoder.
#[derive(Debug, Clone, Copy, Default)]
pub struct AvifDecoder;

impl AvifDecoder {
    /// What this decoder is.
    pub fn caps(&self) -> (r: DecoderCaps)
        ensures
            r.format == Format::Avif && !r.animation && r.tier == Tier::Portable,
    {
        DecoderCaps { format: Format::Avif, name: "re_rav1d", animation: false, tier: Tier::Portable }
    }

    /// The brand sniff.
    pub fn probe(&self, bytes: &[u8]) -> (r: Option<FormatInfo>)
        ensures
            r == spec_avif_probe(bytes@),
    {
        let n = bytes.len();
        if n < 12 || read_be32(bytes, 4) != 0x6674_7970 {
            return None;
        }
        let declared = read_be32(bytes, 0) as u64;
        let size: usize = if declared < n as u64 { declared as usize } else { n };
        let count = if size >= 16 { (size - 16) / 4 } else { 0 };
        let major = read_be32(bytes, 8);
        let mut found = major == 0x6176_6966 || major == 0x6176_6973;
        let mut j: usize = 0;
        while j < count
            invariant
                n == bytes@.len(),
                size <= n,
                count == if size >= 16 { (size - 16) / 4 } else { 0int },
                j <= count,
                found == (is_avif_brand(be32_at(bytes@, 8)) || exists|q: int| 0 <= q < j && is_avif_brand(#[trigger] be32_at(bytes@, 16 + 4 * q))),
            decreases count - j,
        {
            let b = read_be32(bytes, 16 + 4 * j);
            if b == 0x6176_6966 || b == 0x6176_6973 {
                found = true;
            }
            j = j + 1;
        }
        if found {
            Some(FormatInfo { format: Format::Avif, animated: major == 0x6176_6973 })
        } else {
            None
        }
    }

    /// Decodes the primary item, and the alpha item if there is one: 8-bit
    /// sources to 8-bit samples, 10 and 12-bit ones to 16 bits scaled to
    /// the full range; monochrome to gray, an alpha item adding alpha,
    /// premultiplication undone when the container says so.
    ///
    /// # Errors
    /// The container's, the AV1 header's and the decoder's messages as
    /// `Codec`, what [`to_rgb`] refuses, an alpha item of another size as
    /// `Codec`, `TooLarge` above the pixel limit.
    pub fn decode(&self, bytes: &[u8], opts: &DecodeOpts) -> (r: Result<Image, Error>)
        ensures
            avif_decode_ok(r, bytes@, *opts),
    {
        let (primary, alpha, pre) = match avif_items(bytes) {
            Ok(v) => v,
            Err(m) => return Err(Error::Codec(m)),
        };
        let (mw, mh) = match av1_metadata(primary.as_slice()) {
            Ok(v) => v,
            Err(m) => return Err(Error::Codec(m)),
        };
        match opts.check_pixels(mw, mh) {
            Ok(()) => {},
            Err(e) => return Err(e),
        }
        let color = frame_of(primary.as_slice());
        let alpha_obu: Option<&[u8]> = match &alpha {
            Some(a) => Some(a.as_slice()),
            None => None,
        };
        let ghost cv = frame_view(&color);
        let r = from_frames(color, alpha_obu, pre, opts);
        proof {
            let (co, al) = choose|co: Result<SampleData, Seq<char>>, al: Option<(Result<Av1Frame, Seq<char>>, Result<SampleData, Seq<char>>)>|
                (al is Some) == (alpha_obu is Some) && outcomes_fit(cv, co, al) && #[trigger] avif_from_frames(r, cv, co, al, pre, *opts);
            assert(avif_from_frames(r, cv, co, al, pre, *opts));
            assert((al is Some) == (blob_view(alpha) is Some));
            assert(from_some_frames(r, blob_view(alpha) is Some, pre, *opts));
        }
        r
    }
}

} // verus!
