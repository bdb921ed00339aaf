//! JPEG sniffing and header reading: the start-of-image marker, and the
//! frame size and colour space as `zune-jpeg` reads them from the headers
//! alone.

use vstd::prelude::*;
use crate::codecs::exif::{orientation, spec_orientation};
use crate::error::Error;
use crate::format::{Format, FormatInfo, DecoderCaps, Tier};
use crate::image::{ColorType, Image, ImageView, MetaView, Orientation, SampleData, blob_view, new_refusal, spec_apply};
use crate::params::DecodeOpts;
use crate::text::push_str;
use zune_jpeg::zune_core::bytestream::ZCursor;
use zune_jpeg::zune_core::colorspace::ColorSpace;
use zune_jpeg::zune_core::options::DecoderOptions;

verus! {

/// A start-of-image marker followed by the first byte of another marker.
pub open spec fn spec_is_jpeg(b: Seq<u8>) -> bool {
    b.len() >= 3 && b[0] == 0xFF && b[1] == 0xD8 && b[2] == 0xFF
}

/// What `zune-jpeg` reads from the headers alone: `Ok(Some((width,
/// height, gray)))` once they decode, `Ok(None)` if it then reports no
/// image information, `Err` with its message when they do not decode.
pub uninterp spec fn jpeg_header_fields(bytes: Seq<u8>) -> Result<Option<(u16, u16, bool)>, Seq<char>>;

/// `zune_jpeg::JpegDecoder::new_with_options` over the bytes, with the
/// crate's own size limits lifted, then `decode_headers`, `info` and
/// `input_colorspace`. The contract names that result and says nothing
/// more of it.
#[verifier::external_body]
fn header_fields(bytes: &[u8]) -> (r: Result<Option<(u16, u16, bool)>, String>)
    ensures
        match r {
            Ok(v) => jpeg_header_fields(bytes@) == Ok::<Option<(u16, u16, bool)>, Seq<char>>(v),
            Err(m) => jpeg_header_fields(bytes@) == Err::<Option<(u16, u16, bool)>, Seq<char>>(m@),
        },
{
    let options = DecoderOptions::default().set_max_width(usize::MAX).set_max_height(usize::MAX);
    let mut d = zune_jpeg::JpegDecoder::new_with_options(ZCursor::new(bytes), options);
    d.decode_headers().map_err(|e| e.to_string())?;
    let gray = d.input_colorspace() == Some(ColorSpace::Luma);
    Ok(d.info().map(|i| (i.width, i.height, gray)))
}

/// What [`read_headers`] returns for what the headers hold.
pub open spec fn spec_read_headers(fields: Result<Option<(u16, u16, bool)>, Seq<char>>) -> Result<(u32, u32, bool), Seq<char>> {
    match fields {
        Ok(Some((w, h, g))) => Ok((w as u32, h as u32, g)),
        Ok(None) => Err("jpeg headers missing after decode"@),
        Err(m) => Err(m),
    }
}

/// Width, height and whether the file is grayscale, from the headers
/// alone; a failure is a `Codec` error with the reason.
pub fn read_headers(bytes: &[u8]) -> (r: Result<(u32, u32, bool), Error>)
    ensures
        match spec_read_headers(jpeg_header_fields(bytes@)) {
            Ok(v) => r == Ok::<(u32, u32, bool), Error>(v),
            Err(m) => r matches Err(Error::Codec(s)) && s@ == m,
        },
{
    match header_fields(bytes) {
        Ok(Some((w, h, g))) => Ok((w as u32, h as u32, g)),
        Ok(None) => {
            let mut m = String::new();
            push_str(&mut m, "jpeg headers missing after decode");
            Err(Error::Codec(m))
        },
        Err(m) => Err(Error::Codec(m)),
    }
}

/// What `zune-jpeg` decodes with its size limits lifted, to luma when
/// `luma` holds and to RGB otherwise: the pixels, the ICC profile and the
/// raw EXIF; or its message.
pub uninterp spec fn jpeg_decoded(bytes: Seq<u8>, luma: bool) -> Result<(Seq<u8>, Option<Seq<u8>>, Option<Seq<u8>>), Seq<char>>;

/// `zune_jpeg::JpegDecoder::new_with_options` over the bytes, with the
/// crate's own size limits lifted and the output colour space set to
/// `Luma` or `RGB`, then `decode`, `icc_profile` and `exif`. The contract
/// names that result and says nothing more of it. `decode` unwraps the
/// output buffer size, width times height times the output's components,
/// so the caller makes sure that product fits.
#[verifier::external_body]
fn decode_pixels(bytes: &[u8], luma: bool) -> (r: Result<(Vec<u8>, Option<Vec<u8>>, Option<Vec<u8>>), String>)
    requires
        spec_read_headers(jpeg_header_fields(bytes@)) matches Ok((w, h, _))
            && w * h * (if luma { 1int } else { 3int }) <= usize::MAX,
    ensures
        match r {
            Ok((p, i, e)) => jpeg_decoded(bytes@, luma) == Ok::<(Seq<u8>, Option<Seq<u8>>, Option<Seq<u8>>), Seq<char>>((p@, blob_view(i), blob_view(e))),
            Err(m) => jpeg_decoded(bytes@, luma) == Err::<(Seq<u8>, Option<Seq<u8>>, Option<Seq<u8>>), Seq<char>>(m@),
        },
{
    let space = if luma { ColorSpace::Luma } else { ColorSpace::RGB };
    let options = DecoderOptions::default().set_max_width(usize::MAX).set_max_height(usize::MAX).jpeg_set_out_colorspace(space);
    let mut d = zune_jpeg::JpegDecoder::new_with_options(ZCursor::new(bytes), options);
    let pixels = d.decode().map_err(|e| e.to_string())?;
    Ok((pixels, d.icc_profile(), d.exif().cloned()))
}

/// The orientation a JPEG's EXIF asks for, when orientation is applied;
/// unreadable or missing EXIF reads as upright.
pub open spec fn jpeg_orientation(apply: bool, exif: Option<Seq<u8>>) -> Orientation {
    if !apply {
        Orientation::Normal
    } else {
        match exif {
            Some(e) => match spec_orientation(e) {
                Some(o) => o,
                None => Orientation::Normal,
            },
            None => Orientation::Normal,
        }
    }
}

/// What decoding JPEG bytes gives: the headers' refusal, the pixel
/// limit's, an output size this machine cannot address, the crate's
/// message, what [`Image::new`] refuses, or the image
/// with its ICC profile, turned upright as its EXIF says.
pub open spec fn jpeg_decode_ok(r: Result<Image, Error>, bytes: Seq<u8>, opts: DecodeOpts) -> bool {
    match spec_read_headers(jpeg_header_fields(bytes)) {
        Err(m) => r matches Err(Error::Codec(s)) && s@ == m,
        Ok((w, h, gray)) => if w * h > opts.max_pixels {
            r matches Err(Error::TooLarge { pixels, limit }) && pixels == w * h && limit == opts.max_pixels
        } else {
            let color = if gray { ColorType::Gray } else { ColorType::Rgb };
            if w * h * (if gray { 1int } else { 3int }) > usize::MAX {
                r matches Err(Error::Codec(s)) && s@ == "output buffer size overflow"@
            } else {
            match jpeg_decoded(bytes, gray) {
                Err(m) => r matches Err(Error::Codec(s)) && s@ == m,
                Ok((px, icc, exif)) => match new_refusal(w, h, color, px.len()) {
                    Some(msg) => r matches Err(Error::InvalidInput(s)) && s@ == msg,
                    None => r matches Ok(img) && img@ == spec_apply(
                        ImageView { width: w, height: h, color, samples: SampleData::U8(px), meta: MetaView { icc, exif: None, xmp: None } },
                        jpeg_orientation(opts.apply_orientation, exif),
                    ),
                },
            }
            }
        },
    }
}

/// A decoded JPEG stands upright as its EXIF says when asked to, and as
/// stored when not: with `apply_orientation` and an EXIF `Orientation`
/// naming `o`, the image is the stored pixels with `o` applied, the axes
/// exchanged exactly when `o` turns them a quarter; with no EXIF, or none
/// it can read, or without `apply_orientation`, the image is the stored
/// pixels themselves, at the size the headers give.
pub proof fn lemma_jpeg_upright(r: Result<Image, Error>, bytes: Seq<u8>, opts: DecodeOpts)
    requires
        jpeg_decode_ok(r, bytes, opts),
    ensures
        r matches Ok(img) ==> spec_read_headers(jpeg_header_fields(bytes)) matches Ok((w, h, gray))
            && jpeg_decoded(bytes, gray) matches Ok((px, icc, exif)) && {
                let stored = ImageView {
                    width: w,
                    height: h,
                    color: if gray { ColorType::Gray } else { ColorType::Rgb },
                    samples: SampleData::U8(px),
                    meta: MetaView { icc, exif: None, xmp: None },
                };
                &&& !opts.apply_orientation ==> img@ == stored
                &&& opts.apply_orientation ==> (exif matches Some(e) ==> (spec_orientation(e) matches Some(o) ==> {
                    &&& img@ == spec_apply(stored, o)
                    &&& (img@.width, img@.height) == if crate::image::spec_swaps_axes(o) { (h, w) } else { (w, h) }
                }))
                &&& opts.apply_orientation && (exif is None || spec_orientation(exif.unwrap()) is None) ==> img@ == stored
            },
{
}

/// JPEG decoder.
#[derive(Debug, Clone, Copy, Default)]
pub struct JpegDecoder;

impl JpegDecoder {
    /// What this decoder is.
    pub fn caps(&self) -> (r: DecoderCaps)
        ensures
            r.format == Format::Jpeg && !r.animation && r.tier == Tier::Portable,
            r.name@ == "zune-jpeg"@,
    {
        DecoderCaps { format: Format::Jpeg, name: "zune-jpeg", animation: false, tier: Tier::Portable }
    }

    /// The start-of-image check.
    pub fn probe(&self, bytes: &[u8]) -> (r: Option<FormatInfo>)
        ensures
            r == if spec_is_jpeg(bytes@) { Some(FormatInfo { format: Format::Jpeg, animated: false }) } else {
                None
            },
    {
        if bytes.len() >= 3 && bytes[0] == 0xFF && bytes[1] == 0xD8 && bytes[2] == 0xFF {
            Some(FormatInfo { format: Format::Jpeg, animated: false })
        } else {
            None
        }
    }

    /// Width and height from the headers.
    pub fn dimensions(&self, bytes: &[u8]) -> (r: Option<(u32, u32)>)
        ensures
            r == if spec_is_jpeg(bytes@) {
                match spec_read_headers(jpeg_header_fields(bytes@)) {
                    Ok((w, h, _)) => Some((w, h)),
                    Err(_) => None,
                }
            } else {
                None
            },
    {
        if self.probe(bytes).is_none() {
            return None;
        }
        match read_headers(bytes) {
            Ok((w, h, _)) => Some((w, h)),
            Err(_) => None,
        }
    }

    /// Decodes baseline and progressive 8-bit JPEG: grayscale files to
    /// gray, every other colour space to RGB, the ICC profile kept and the
    /// EXIF orientation applied unless the options say not to.
    ///
    /// # Errors
    /// The crate's messages as `Codec`, `TooLarge` above the pixel limit.
    pub fn decode(&self, bytes: &[u8], opts: &DecodeOpts) -> (r: Result<Image, Error>)
        ensures
            jpeg_decode_ok(r, bytes@, *opts),
    {
        let (width, height, gray) = match read_headers(bytes) {
            Ok(v) => v,
            Err(e) => return Err(e),
        };
        match opts.check_pixels(width, height) {
            Ok(()) => {},
            Err(e) => return Err(e),
        }
        let color = if gray { ColorType::Gray } else { ColorType::Rgb };
        let comps: usize = if gray { 1 } else { 3 };
        let fits = match (width as usize).checked_mul(height as usize) {
            Some(px) => px.checked_mul(comps).is_some(),
            None => {
                proof { assert(width * height * comps >= width * height) by (nonlinear_arith) requires comps >= 1; }
                false
            },
        };
        if !fits {
            let mut m = String::new();
            push_str(&mut m, "output buffer size overflow");
            return Err(Error::Codec(m));
        }
        let (pixels, icc, exif) = match decode_pixels(bytes, gray) {
            Ok(v) => v,
            Err(m) => return Err(Error::Codec(m)),
        };
        let turn = if opts.apply_orientation {
            match &exif {
                Some(raw) => match orientation(raw.as_slice()) {
                    Some(o) => o,
                    None => Orientation::Normal,
                },
                None => Orientation::Normal,
            }
        } else {
            Orientation::Normal
        };
        match Image::from_u8(width, height, color, pixels) {
            Ok(img) => Ok(img.with_icc(icc).apply_orientation(turn)),
            Err(e) => Err(e),
        }
    }
}

} // verus!
