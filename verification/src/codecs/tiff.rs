//! TIFF via the `tiff` crate, first image directory: classic and BigTIFF
//! magic in both byte orders, the stored size, and the decode. Gray,
//! gray-alpha, RGB and RGBA at 8 or 16 bits, 32-bit float samples, and
//! palette images expanded through their colour map; the `Orientation`
//! tag is applied and the ICC profile tag kept. CMYK and YCbCr need a
//! colour transform and are refused.

use vstd::prelude::*;
use std::io::Cursor;
use tiff::decoder::{Decoder, Limits};
use self::TiffSamples::Other;
use tiff::decoder::DecodingResult::{U8, U16, U32, U64, F16, F32, F64, I8, I16, I32, I64};
use crate::error::Error;
use crate::format::{Format, FormatInfo, DecoderCaps, Tier};
use crate::image::{ColorType, Image, ImageView, MetaView, Orientation, SampleData, Samples, blob_view, empty_meta, new_refusal, spec_apply, spec_from_exif};
use crate::params::DecodeOpts;
use crate::text::push_str;

verus! {

/// Classic and BigTIFF magic, both byte orders: `II*\0`, `MM\0*`,
/// `II+\0`, `MM\0+`.
pub open spec fn spec_tiff_magic(b: Seq<u8>) -> bool {
    b.len() >= 4 && (
        (b[0] == 0x49 && b[1] == 0x49 && b[2] == 0x2A && b[3] == 0x00)
        || (b[0] == 0x4D && b[1] == 0x4D && b[2] == 0x00 && b[3] == 0x2A)
        || (b[0] == 0x49 && b[1] == 0x49 && b[2] == 0x2B && b[3] == 0x00)
        || (b[0] == 0x4D && b[1] == 0x4D && b[2] == 0x00 && b[3] == 0x2B))
}

/// The width and height of the first image directory, as
/// `tiff::decoder::Decoder` reports them, or `None` when it cannot open
/// the bytes or read that directory.
pub uninterp spec fn tiff_stored_size(bytes: Seq<u8>) -> Option<(u32, u32)>;

/// `tiff::decoder::Decoder::new` over the bytes, then `dimensions`: the
/// stored size of the first image directory, `None` on any error. The
/// contract names that result and says nothing more of it.
#[verifier::external_body]
fn stored_size(bytes: &[u8]) -> (r: Option<(u32, u32)>)
    ensures
        r == tiff_stored_size(bytes@),
{
    tiff::decoder::Decoder::new(std::io::Cursor::new(bytes)).ok()?.dimensions().ok()
}

/// What `tiff` reads when it opens the bytes without limits: the size of
/// the first image directory, or its message.
pub uninterp spec fn tiff_opened(bytes: Seq<u8>) -> Result<(u32, u32), Seq<char>>;

/// `tiff::decoder::Decoder::new` over the bytes, `with_limits(Limits::
/// unlimited())`, then `dimensions`. The contract names the size or the
/// message.
#[verifier::external_body]
fn tiff_open(bytes: &[u8]) -> (r: Result<(u32, u32), String>)
    ensures
        match r {
            Ok(size) => tiff_opened(bytes@) == Ok::<(u32, u32), Seq<char>>(size),
            Err(m) => tiff_opened(bytes@) == Err::<(u32, u32), Seq<char>>(m@),
        },
{
    let mut d = Decoder::new(Cursor::new(bytes)).map_err(|e| e.to_string())?.with_limits(Limits::unlimited());
    d.dimensions().map_err(|e| e.to_string())
}

/// A TIFF colour type as the decode reads it: `0` gray, `1` gray with
/// alpha, `2` RGB, `3` palette, `4` RGBA, `5` anything else.
pub open spec fn tiff_kind_color(kind: u8) -> Option<ColorType> {
    if kind == 0 {
        Some(ColorType::Gray)
    } else if kind == 1 {
        Some(ColorType::GrayAlpha)
    } else if kind == 2 || kind == 3 {
        Some(ColorType::Rgb)
    } else if kind == 4 {
        Some(ColorType::Rgba)
    } else {
        None
    }
}

/// What `Decoder::colortype` gives for the first image directory of the
/// bytes, opened as in [`tiff_open`]: its kind (see [`tiff_kind_color`])
/// and its `Debug` text; or the crate's message.
pub uninterp spec fn tiff_color(bytes: Seq<u8>) -> Result<(u8, Seq<char>), Seq<char>>;

/// The bytes opened as in [`tiff_open`], then `Decoder::colortype`, as a
/// kind and its `Debug` text. The contract names what comes back.
#[verifier::external_body]
fn tiff_colortype(bytes: &[u8]) -> (r: Result<(u8, String), String>)
    ensures
        match r {
            Ok((k, t)) => tiff_color(bytes@) == Ok::<(u8, Seq<char>), Seq<char>>((k, t@)),
            Err(m) => tiff_color(bytes@) == Err::<(u8, Seq<char>), Seq<char>>(m@),
        },
{
    let mut d = Decoder::new(Cursor::new(bytes)).map_err(|e| e.to_string())?.with_limits(Limits::unlimited());
    let c = d.colortype().map_err(|e| e.to_string())?;
    let kind = match c {
        tiff::ColorType::Gray(_) => 0,
        tiff::ColorType::GrayA(_) => 1,
        tiff::ColorType::RGB(_) => 2,
        tiff::ColorType::Palette(_) => 3,
        tiff::ColorType::RGBA(_) => 4,
        _ => 5,
    };
    Ok((kind, format!("{c:?}")))
}

/// The `InterColorProfile` tag (34675) of the first image directory, as
/// bytes, when the bytes open, the tag is there and reads.
pub uninterp spec fn tiff_icc_tag(bytes: Seq<u8>) -> Option<Seq<u8>>;

/// The bytes opened as in [`tiff_open`], then `Decoder::find_tag` for
/// tag 34675 and `into_u8_vec`; `None` on any error. The contract names
/// what comes back.
#[verifier::external_body]
fn tiff_icc(bytes: &[u8]) -> (r: Option<Vec<u8>>)
    ensures
        blob_view(r) == tiff_icc_tag(bytes@),
{
    let mut d = Decoder::new(Cursor::new(bytes)).ok()?.with_limits(Limits::unlimited());
    d.find_tag(tiff::tags::Tag::Unknown(34675)).ok().flatten().and_then(|v| v.into_u8_vec().ok())
}

/// The `Orientation` tag of the first image directory, as an unsigned
/// value, when the bytes open, the tag is there and reads.
pub uninterp spec fn tiff_orientation_value(bytes: Seq<u8>) -> Option<u32>;

/// The bytes opened as in [`tiff_open`], then `Decoder::find_tag` for
/// `Orientation` and `into_u32`; `None` on any error. The contract names
/// what comes back.
#[verifier::external_body]
fn tiff_orientation_tag(bytes: &[u8]) -> (r: Option<u32>)
    ensures
        r == tiff_orientation_value(bytes@),
{
    let mut d = Decoder::new(Cursor::new(bytes)).ok()?.with_limits(Limits::unlimited());
    d.find_tag(tiff::tags::Tag::Orientation).ok().flatten().and_then(|v| v.into_u32().ok())
}

/// Samples as `tiff` decodes them.
#[derive(Debug)]
pub enum TiffSamples {
    /// Unsigned bytes.
    U8(Vec<u8>),
    /// Unsigned 16-bit words.
    U16(Vec<u16>),
    /// 32-bit floats, as bit patterns.
    F32(Vec<u32>),
    /// Any other sample type, by name.
    Other(&'static str),
}

/// [`TiffSamples`] as values.
pub enum TiffData {
    /// Unsigned bytes.
    U8(Seq<u8>),
    /// Unsigned 16-bit words.
    U16(Seq<u16>),
    /// 32-bit floats, as bit patterns.
    F32(Seq<u32>),
    /// Any other sample type, by name.
    Other(Seq<char>),
}

impl View for TiffSamples {
    type V = TiffData;

    open spec fn view(&self) -> TiffData {
        match self {
            TiffSamples::U8(v) => TiffData::U8(v@),
            TiffSamples::U16(v) => TiffData::U16(v@),
            TiffSamples::F32(v) => TiffData::F32(v@),
            TiffSamples::Other(n) => TiffData::Other(n@),
        }
    }
}

/// What `Decoder::read_image` gives for the first image directory of the
/// bytes, opened as in [`tiff_open`]; or the crate's message.
pub uninterp spec fn tiff_image(bytes: Seq<u8>) -> Result<TiffData, Seq<char>>;

/// The bytes opened as in [`tiff_open`], then `Decoder::read_image`, each
/// result kept as its own variant. The contract names what comes back.
#[verifier::external_body]
fn tiff_read_image(bytes: &[u8]) -> (r: Result<TiffSamples, String>)
    ensures
        match r {
            Ok(v) => tiff_image(bytes@) == Ok::<TiffData, Seq<char>>(v@),
            Err(m) => tiff_image(bytes@) == Err::<TiffData, Seq<char>>(m@),
        },
{
    Ok(match Decoder::new(Cursor::new(bytes)).and_then(|d| d.with_limits(Limits::unlimited()).read_image()).map_err(|e| e.to_string())? {
        U8(v) => TiffSamples::U8(v),
        U16(v) => TiffSamples::U16(v),
        F32(v) => TiffSamples::F32(v.into_iter().map(|x| x.to_bits()).collect()),
        U32(_) => Other("u32"),
        U64(_) => Other("u64"),
        F16(_) => Other("f16"),
        F64(_) => Other("f64"),
        I8(_) => Other("i8"),
        I16(_) => Other("i16"),
        I32(_) => Other("i32"),
        I64(_) => Other("i64"),
    })
}

/// The `ColorMap` tag of the first image directory as 16-bit values,
/// `None` when it is missing; or the crate's message.
pub uninterp spec fn tiff_palette(bytes: Seq<u8>) -> Result<Option<Seq<u16>>, Seq<char>>;

/// The bytes opened as in [`tiff_open`], then `Decoder::find_tag` for
/// `ColorMap` and `into_u16_vec`. The contract names what comes back.
#[verifier::external_body]
fn tiff_color_map(bytes: &[u8]) -> (r: Result<Option<Vec<u16>>, String>)
    ensures
        match r {
            Ok(m) => tiff_palette(bytes@) == Ok::<Option<Seq<u16>>, Seq<char>>(match m { Some(v) => Some(v@), None => None }),
            Err(e) => tiff_palette(bytes@) == Err::<Option<Seq<u16>>, Seq<char>>(e@),
        },
{
    let mut d = Decoder::new(Cursor::new(bytes)).map_err(|e| e.to_string())?.with_limits(Limits::unlimited());
    match d.find_tag(tiff::tags::Tag::ColorMap).map_err(|e| e.to_string())? {
        Some(v) => v.into_u16_vec().map(Some).map_err(|e| e.to_string()),
        None => Ok(None),
    }
}

/// Palette indices through a colour map of three planes, red then green
/// then blue, one entry per index; an index past the end takes the last
/// entry.
pub open spec fn palette_rgb(map: Seq<u16>, idx: Seq<u8>) -> Seq<u16> {
    let e = (map.len() / 3) as int;
    Seq::new((idx.len() * 3) as nat, |k: int| {
        let i = if (idx[k / 3] as int) < e { idx[k / 3] as int } else { e - 1 };
        map[(k % 3) * e + i]
    })
}

/// 16-bit palette indices, those past 255 read as 255.
pub open spec fn clamp_indices(v: Seq<u16>) -> Seq<u8> {
    Seq::new(v.len(), |i: int| if v[i] <= 255 { v[i] as u8 } else { 255u8 })
}

/// What expanding palette indices through a colour map gives.
pub open spec fn palette_ok(r: Result<Vec<u16>, Error>, map: Option<Seq<u16>>, idx: Seq<u8>) -> bool {
    match map {
        None => r matches Err(Error::Codec(m)) && m@ == "palette TIFF without a colour map"@,
        Some(m) => if m.len() / 3 == 0 {
            r matches Err(Error::Codec(s)) && s@ == "empty TIFF colour map"@
        } else {
            r matches Ok(v) && v@ == palette_rgb(m, idx)
        },
    }
}

/// Expands palette indices through the colour map, if there is one.
pub fn expand_palette(map: Option<Vec<u16>>, idx: &[u8]) -> (r: Result<Vec<u16>, Error>)
    ensures
        palette_ok(r, match map { Some(m) => Some(m@), None => None }, idx@),
{
    let map = match map {
        Some(m) => m,
        None => {
            let mut s = String::new();
            push_str(&mut s, "palette TIFF without a colour map");
            return Err(Error::Codec(s));
        },
    };
    let e = map.len() / 3;
    if e == 0 {
        let mut s = String::new();
        push_str(&mut s, "empty TIFF colour map");
        return Err(Error::Codec(s));
    }
    let mut out: Vec<u16> = Vec::new();
    let mut k: usize = 0;
    while k < idx.len()
        invariant
            e == map@.len() / 3,
            map@.len() == map.len(),
            e > 0,
            k <= idx@.len(),
            out@.len() == k * 3,
            forall|j: int| 0 <= j < k * 3 ==> out@[j] == palette_rgb(map@, idx@)[j],
        decreases idx@.len() - k,
    {
        let i: usize = if (idx[k] as usize) < e { idx[k] as usize } else { e - 1 };
        out.push(map[i]);
        out.push(map[e + i]);
        out.push(map[2 * e + i]);
        assert forall|j: int| 0 <= j < (k + 1) * 3 implies out@[j] == palette_rgb(map@, idx@)[j] by {
            if j >= k * 3 {
                vstd::arithmetic::div_mod::lemma_fundamental_div_mod_converse(j, 3, k as int, j - k * 3);
                if j == k * 3 {
                    assert(j % 3 == 0);
                    assert((j % 3) * (e as int) == 0) by (nonlinear_arith) requires j % 3 == 0;
                } else if j == k * 3 + 1 {
                    assert(j % 3 == 1);
                    assert((j % 3) * (e as int) == e) by (nonlinear_arith) requires j % 3 == 1;
                } else {
                    assert((j % 3) * (e as int) == 2 * e);
                }
            }
        }
        k = k + 1;
    }
    assert(out@ =~= palette_rgb(map@, idx@));
    Ok(out)
}

fn clamp_to_u8(v: &[u16]) -> (r: Vec<u8>)
    ensures
        r@ == clamp_indices(v@),
{
    let mut out: Vec<u8> = Vec::new();
    let mut i: usize = 0;
    while i < v.len()
        invariant
            i <= v@.len(),
            out@ =~= clamp_indices(v@).subrange(0, i as int),
        decreases v@.len() - i,
    {
        out.push(if v[i] <= 255 { v[i] as u8 } else { 255 });
        i = i + 1;
    }
    assert(out@ =~= clamp_indices(v@));
    out
}

/// The `Debug` name of a TIFF colour type that needs a transform.
pub open spec fn refused_color(debug: Seq<char>) -> Seq<char> {
    "TIFF colour type "@ + debug + " needs a colour transform, which is not supported"@
}

/// What expanding palette indices through a colour map gives: the RGB
/// samples, or the message that refuses the map.
pub open spec fn palette_expanded(map: Option<Seq<u16>>, idx: Seq<u8>) -> Result<Seq<u16>, Seq<char>> {
    match map {
        None => Err("palette TIFF without a colour map"@),
        Some(m) => if m.len() / 3 == 0 {
            Err("empty TIFF colour map"@)
        } else {
            Ok(palette_rgb(m, idx))
        },
    }
}

/// The image of decoded samples: the stored size and layout, the profile
/// beside them, turned as asked.
pub open spec fn tiff_built(r: Result<Image, Error>, w: u32, h: u32, color: ColorType, samples: SampleData, icc: Option<Seq<u8>>, turn: Orientation) -> bool {
    match new_refusal(w, h, color, crate::image::data_len(samples)) {
        Some(msg) => r matches Err(Error::InvalidInput(m)) && m@ == msg,
        None => r matches Ok(img) && img@ == spec_apply(
            ImageView { width: w, height: h, color, samples, meta: MetaView { icc, ..empty_meta() } },
            turn,
        ),
    }
}

/// Palette indices through the file's colour map, then the image.
pub open spec fn tiff_palette_ok(r: Result<Image, Error>, bytes: Seq<u8>, w: u32, h: u32, color: ColorType, idx: Seq<u8>, icc: Option<Seq<u8>>, turn: Orientation) -> bool {
    match tiff_palette(bytes) {
        Err(m) => r matches Err(Error::Codec(s)) && s@ == m,
        Ok(map) => match palette_expanded(map, idx) {
            Err(m) => r matches Err(Error::Codec(s)) && s@ == m,
            Ok(rgb) => tiff_built(r, w, h, color, SampleData::U16(rgb), icc, turn),
        },
    }
}

/// What the decoded samples become: palette indices expanded to 16-bit
/// RGB, other integer and float samples kept, other sample types refused.
pub open spec fn tiff_samples_ok(r: Result<Image, Error>, bytes: Seq<u8>, w: u32, h: u32, color: ColorType, palette: bool, data: TiffData, icc: Option<Seq<u8>>, turn: Orientation) -> bool {
    match data {
        TiffData::U8(v) => if palette {
            tiff_palette_ok(r, bytes, w, h, color, v, icc, turn)
        } else {
            tiff_built(r, w, h, color, SampleData::U8(v), icc, turn)
        },
        TiffData::U16(v) => if palette {
            tiff_palette_ok(r, bytes, w, h, color, clamp_indices(v), icc, turn)
        } else {
            tiff_built(r, w, h, color, SampleData::U16(v), icc, turn)
        },
        TiffData::F32(v) => tiff_built(r, w, h, color, SampleData::F32(v), icc, turn),
        TiffData::Other(name) => r matches Err(Error::Codec(s)) && s@ == "TIFF "@ + name + " samples are not supported"@,
    }
}

/// The turn the `Orientation` tag asks for, when asked to apply it.
pub open spec fn tiff_turn(bytes: Seq<u8>, apply: bool) -> Orientation {
    if !apply {
        Orientation::Normal
    } else {
        match tiff_orientation_value(bytes) {
            Some(v) => match spec_from_exif(v) {
                Some(o) => o,
                None => Orientation::Normal,
            },
            None => Orientation::Normal,
        }
    }
}

/// What decoding TIFF bytes gives: the crate's refusal to open them, the
/// pixel limit's, its refusal of the colour type, a colour type that needs
/// a transform; then the samples it reads, or its refusal, as an image of
/// the stored size with its profile, turned upright when asked.
pub open spec fn tiff_decode_ok(r: Result<Image, Error>, bytes: Seq<u8>, opts: DecodeOpts) -> bool {
    match tiff_opened(bytes) {
        Err(m) => r matches Err(Error::Codec(s)) && s@ == m,
        Ok((w, h)) => if w * h > opts.max_pixels {
            r matches Err(Error::TooLarge { pixels, limit }) && pixels == w * h && limit == opts.max_pixels
        } else {
            match tiff_color(bytes) {
                Err(m) => r matches Err(Error::Codec(s)) && s@ == m,
                Ok((kind, debug)) => match tiff_kind_color(kind) {
                    None => r matches Err(Error::Codec(s)) && s@ == refused_color(debug),
                    Some(color) => match tiff_image(bytes) {
                        Err(m) => r matches Err(Error::Codec(s)) && s@ == m,
                        Ok(data) => tiff_samples_ok(r, bytes, w, h, color, kind == 3, data, tiff_icc_tag(bytes),
                            tiff_turn(bytes, opts.apply_orientation)),
                    },
                },
            }
        },
    }
}

/// The picture decoded samples stand for before any turn: the stored
/// size and layout, the samples (palette indices expanded), the profile.
proof fn tiff_stored_picture(r: Result<Image, Error>, bytes: Seq<u8>, w: u32, h: u32, color: ColorType, palette: bool, data: TiffData, icc: Option<Seq<u8>>, turn: Orientation) -> (stored: ImageView)
    requires
        tiff_samples_ok(r, bytes, w, h, color, palette, data, icc, turn),
    ensures
        r matches Ok(img) ==> img@ == spec_apply(stored, turn),
        stored.width == w && stored.height == h && stored.color == color,
        stored.meta == (MetaView { icc, ..empty_meta() }),
{
    let meta = MetaView { icc, ..empty_meta() };
    let expanded = |idx: Seq<u8>| match tiff_palette(bytes) {
        Ok(map) => match palette_expanded(map, idx) {
            Ok(rgb) => SampleData::U16(rgb),
            Err(_) => SampleData::U8(idx),
        },
        Err(_) => SampleData::U8(idx),
    };
    let samples = match data {
        TiffData::U8(v) => if palette { expanded(v) } else { SampleData::U8(v) },
        TiffData::U16(v) => if palette { expanded(clamp_indices(v)) } else { SampleData::U16(v) },
        TiffData::F32(v) => SampleData::F32(v),
        TiffData::Other(_) => SampleData::U8(Seq::empty()),
    };
    ImageView { width: w, height: h, color, samples, meta }
}

/// A decoded TIFF stands upright as its `Orientation` tag says when asked
/// to, and as stored when not. The picture returned is the first page as
/// stored, at the size the file gives, with its profile: without
/// `apply_orientation` the image is that picture; with it and a tag value
/// naming `o`, that picture with `o` applied, the axes exchanged exactly
/// when `o` turns them a quarter; with it and no tag, or a value naming
/// none, that picture again.
pub proof fn lemma_tiff_upright(r: Result<Image, Error>, bytes: Seq<u8>, opts: DecodeOpts) -> (stored: ImageView)
    requires
        tiff_decode_ok(r, bytes, opts),
    ensures
        r matches Ok(img) ==> {
            &&& tiff_opened(bytes) == Ok::<(u32, u32), Seq<char>>((stored.width, stored.height))
            &&& stored.meta.exif is None
            &&& !opts.apply_orientation ==> img@ == stored
            &&& opts.apply_orientation ==> (tiff_orientation_value(bytes) matches Some(v) ==> (spec_from_exif(v) matches Some(o) ==> {
                &&& img@ == spec_apply(stored, o)
                &&& (img@.width, img@.height) == if crate::image::spec_swaps_axes(o) {
                    (stored.height, stored.width)
                } else {
                    (stored.width, stored.height)
                }
            }))
            &&& opts.apply_orientation && (tiff_orientation_value(bytes) is None
                || spec_from_exif(tiff_orientation_value(bytes).unwrap()) is None) ==> img@ == stored
        },
{
    let turn = tiff_turn(bytes, opts.apply_orientation);
    let none = ImageView { width: 0, height: 0, color: ColorType::Gray, samples: SampleData::U8(Seq::empty()), meta: empty_meta() };
    match tiff_opened(bytes) {
        Err(_) => none,
        Ok((w, h)) => if w * h > opts.max_pixels {
            none
        } else {
            match tiff_color(bytes) {
                Err(_) => none,
                Ok((kind, _)) => match tiff_kind_color(kind) {
                    None => none,
                    Some(color) => match tiff_image(bytes) {
                        Err(_) => none,
                        Ok(data) => tiff_stored_picture(r, bytes, w, h, color, kind == 3, data, tiff_icc_tag(bytes), turn),
                    },
                },
            }
        },
    }
}

/// The image of decoded samples, with the profile and the turn.
fn tiff_finish(width: u32, height: u32, color: ColorType, samples: Samples, icc: Option<Vec<u8>>, turn: Orientation) -> (r: Result<Image, Error>)
    ensures
        tiff_built(r, width, height, color, samples@, blob_view(icc), turn),
{
    match Image::new(width, height, color, samples) {
        Ok(img) => {
            let img = img.with_icc(icc);
            Ok(img.apply_orientation(turn))
        },
        Err(e) => Err(e),
    }
}

/// TIFF decoder, first page only.
#[derive(Debug, Clone, Copy, Default)]
pub struct TiffDecoder;

impl TiffDecoder {
    /// What this decoder is.
    pub fn caps(&self) -> (r: DecoderCaps)
        ensures
            r.format == Format::Tiff && !r.animation && r.tier == Tier::Portable,
    {
        DecoderCaps { format: Format::Tiff, name: "tiff", animation: false, tier: Tier::Portable }
    }

    /// The magic check.
    pub fn probe(&self, bytes: &[u8]) -> (r: Option<FormatInfo>)
        ensures
            r == if spec_tiff_magic(bytes@) { Some(FormatInfo { format: Format::Tiff, animated: false }) } else {
                None
            },
    {
        if bytes.len() < 4 {
            return None;
        }
        let (a, b, c, d) = (bytes[0], bytes[1], bytes[2], bytes[3]);
        let ok = (a == 0x49 && b == 0x49 && c == 0x2A && d == 0x00) || (a == 0x4D && b == 0x4D && c == 0x00 && d
            == 0x2A) || (a == 0x49 && b == 0x49 && c == 0x2B && d == 0x00) || (a == 0x4D && b == 0x4D && c == 0x00
            && d == 0x2B);
        if ok {
            Some(FormatInfo { format: Format::Tiff, animated: false })
        } else {
            None
        }
    }

    /// The stored size, as every other decoder reports it; the
    /// `Orientation` tag is applied by decoding only.
    pub fn dimensions(&self, bytes: &[u8]) -> (r: Option<(u32, u32)>)
        ensures
            r == if spec_tiff_magic(bytes@) { tiff_stored_size(bytes@) } else { None },
    {
        if self.probe(bytes).is_none() {
            return None;
        }
        stored_size(bytes)
    }

    /// Decodes the first image directory, turned upright as its
    /// `Orientation` tag says unless the options say not to, with its ICC
    /// profile.
    ///
    /// # Errors
    /// The crate's messages as `Codec`, colour types that need a transform
    /// and sample types the image cannot hold as `Codec`, `TooLarge` above
    /// the pixel limit.
    pub fn decode(&self, bytes: &[u8], opts: &DecodeOpts) -> (r: Result<Image, Error>)
        ensures
            tiff_decode_ok(r, bytes@, *opts),
    {
        let (width, height) = match tiff_open(bytes) {
            Ok(v) => v,
            Err(m) => return Err(Error::Codec(m)),
        };
        match opts.check_pixels(width, height) {
            Ok(()) => {},
            Err(e) => return Err(e),
        }
        let (kind, debug) = match tiff_colortype(bytes) {
            Ok(v) => v,
            Err(m) => return Err(Error::Codec(m)),
        };
        let color = if kind == 0 {
            ColorType::Gray
        } else if kind == 1 {
            ColorType::GrayAlpha
        } else if kind == 2 || kind == 3 {
            ColorType::Rgb
        } else if kind == 4 {
            ColorType::Rgba
        } else {
            let mut m = String::new();
            push_str(&mut m, "TIFF colour type ");
            push_str(&mut m, debug.as_str());
            push_str(&mut m, " needs a colour transform, which is not supported");
            return Err(Error::Codec(m));
        };
        let icc = tiff_icc(bytes);
        let turn = if opts.apply_orientation {
            match tiff_orientation_tag(bytes) {
                Some(v) => match Orientation::from_exif(v) {
                    Some(o) => o,
                    None => Orientation::Normal,
                },
                None => Orientation::Normal,
            }
        } else {
            Orientation::Normal
        };
        let read = match tiff_read_image(bytes) {
            Ok(v) => v,
            Err(m) => return Err(Error::Codec(m)),
        };
        let palette = kind == 3;
        let samples = match read {
            TiffSamples::U8(v) => if palette {
                let map = match tiff_color_map(bytes) {
                    Ok(m) => m,
                    Err(m) => return Err(Error::Codec(m)),
                };
                match expand_palette(map, v.as_slice()) {
                    Ok(x) => Samples::U16(x),
                    Err(e) => return Err(e),
                }
            } else {
                Samples::U8(v)
            },
            TiffSamples::U16(v) => if palette {
                let idx = clamp_to_u8(v.as_slice());
                let map = match tiff_color_map(bytes) {
                    Ok(m) => m,
                    Err(m) => return Err(Error::Codec(m)),
                };
                match expand_palette(map, idx.as_slice()) {
                    Ok(x) => Samples::U16(x),
                    Err(e) => return Err(e),
                }
            } else {
                Samples::U16(v)
            },
            TiffSamples::F32(v) => Samples::F32(v),
            TiffSamples::Other(name) => {
                let mut m = String::new();
                push_str(&mut m, "TIFF ");
                push_str(&mut m, name);
                push_str(&mut m, " samples are not supported");
                return Err(Error::Codec(m));
            },
        };
        tiff_finish(width, height, color, samples, icc, turn)
    }
}

} // verus!
