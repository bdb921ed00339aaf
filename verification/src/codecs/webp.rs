//! WebP via `image-webp`: the RIFF header, the animation flag of a
//! `VP8X` chunk, and the decode of lossy, lossless and the first frame of
//! animated files to 8-bit RGB, or RGBA when the file has alpha, with the
//! ICC profile kept and the EXIF orientation applied.

use vstd::prelude::*;
use crate::codecs::exif::{orientation, spec_orientation};
use crate::codecs::pixels::zeroed_bytes;
use crate::error::Error;
use crate::format::{Format, FormatInfo, DecoderCaps, Tier};
use crate::image::{ColorType, Image, ImageView, MetaView, Orientation, SampleData, blob_view, empty_meta, new_refusal, spec_apply};
use crate::params::DecodeOpts;
use crate::text::push_str;

verus! {

/// Bit in the `VP8X` flags byte that marks an animated file.
pub const VP8X_ANIMATION: u8 = 0x02;

/// `RIFF` then `WEBP` at byte 8, with a chunk header after it.
pub open spec fn spec_is_webp(b: Seq<u8>) -> bool {
    b.len() >= 16 && b[0] == 0x52 && b[1] == 0x49 && b[2] == 0x46 && b[3] == 0x46 && b[8] == 0x57 && b[9] == 0x45
        && b[10] == 0x42 && b[11] == 0x50
}

/// Whether the first chunk is `VP8X` with the animation flag set.
pub open spec fn spec_webp_animated(b: Seq<u8>) -> bool {
    b[12] == 0x56 && b[13] == 0x50 && b[14] == 0x38 && b[15] == 0x58 && b.len() > 20 && (b[20] / 2) % 2 == 1
}

/// What `image-webp` reads of the headers: width, height, whether there
/// is alpha, and the output buffer size; or its message.
pub uninterp spec fn webp_header(bytes: Seq<u8>) -> Result<(u32, u32, bool, Option<usize>), Seq<char>>;

/// `image_webp::WebPDecoder::new` over the bytes, then `dimensions`,
/// `has_alpha` and `output_buffer_size`. The contract names that header.
#[verifier::external_body]
fn webp_open(bytes: &[u8]) -> (r: Result<(u32, u32, bool, Option<usize>), String>)
    ensures
        match r {
            Ok(hd) => webp_header(bytes@) == Ok::<(u32, u32, bool, Option<usize>), Seq<char>>(hd),
            Err(m) => webp_header(bytes@) == Err::<(u32, u32, bool, Option<usize>), Seq<char>>(m@),
        },
{
    let d = image_webp::WebPDecoder::new(std::io::Cursor::new(bytes)).map_err(|e| e.to_string())?;
    let (w, h) = d.dimensions();
    Ok((w, h, d.has_alpha(), d.output_buffer_size()))
}

/// What `WebPDecoder::read_image` leaves in a buffer holding `buf`, the
/// decoder made from the bytes; or the crate's message.
pub uninterp spec fn webp_pixels(bytes: Seq<u8>, buf: Seq<u8>) -> Result<Seq<u8>, Seq<char>>;

/// `WebPDecoder::new` over the bytes, then `read_image` into the buffer.
/// The contract names the buffer it leaves; it keeps its length.
#[verifier::external_body]
fn webp_read(bytes: &[u8], buf: &mut Vec<u8>) -> (r: Result<(), String>)
    ensures
        final(buf)@.len() == old(buf)@.len(),
        match r {
            Ok(()) => webp_pixels(bytes@, old(buf)@) == Ok::<Seq<u8>, Seq<char>>(final(buf)@),
            Err(m) => webp_pixels(bytes@, old(buf)@) == Err::<Seq<u8>, Seq<char>>(m@),
        },
{
    let mut d = image_webp::WebPDecoder::new(std::io::Cursor::new(bytes)).map_err(|e| e.to_string())?;
    d.read_image(buf).map_err(|e| e.to_string())
}

/// What `WebPDecoder::icc_profile` gives for the bytes: the `ICCP`
/// chunk's contents, if any; or the crate's message.
pub uninterp spec fn webp_icc_chunk(bytes: Seq<u8>) -> Result<Option<Seq<u8>>, Seq<char>>;

/// `WebPDecoder::new` over the bytes, then `icc_profile`, which reads the
/// chunk by its recorded position whatever was decoded before. The
/// contract names what comes back.
#[verifier::external_body]
fn webp_icc(bytes: &[u8]) -> (r: Result<Option<Vec<u8>>, String>)
    ensures
        match r {
            Ok(i) => webp_icc_chunk(bytes@) == Ok::<Option<Seq<u8>>, Seq<char>>(blob_view(i)),
            Err(m) => webp_icc_chunk(bytes@) == Err::<Option<Seq<u8>>, Seq<char>>(m@),
        },
{
    let mut d = image_webp::WebPDecoder::new(std::io::Cursor::new(bytes)).map_err(|e| e.to_string())?;
    d.icc_profile().map_err(|e| e.to_string())
}

/// What `WebPDecoder::exif_metadata` gives for the bytes: the `EXIF`
/// chunk's contents, if any; or the crate's message.
pub uninterp spec fn webp_exif_chunk(bytes: Seq<u8>) -> Result<Option<Seq<u8>>, Seq<char>>;

/// `WebPDecoder::new` over the bytes, then `exif_metadata`, which reads
/// the chunk by its recorded position. The contract names what comes back.
#[verifier::external_body]
fn webp_exif(bytes: &[u8]) -> (r: Result<Option<Vec<u8>>, String>)
    ensures
        match r {
            Ok(e) => webp_exif_chunk(bytes@) == Ok::<Option<Seq<u8>>, Seq<char>>(blob_view(e)),
            Err(m) => webp_exif_chunk(bytes@) == Err::<Option<Seq<u8>>, Seq<char>>(m@),
        },
{
    let mut d = image_webp::WebPDecoder::new(std::io::Cursor::new(bytes)).map_err(|e| e.to_string())?;
    d.exif_metadata().map_err(|e| e.to_string())
}

/// The turn an EXIF chunk asks for: its orientation, or none when there
/// is no chunk or it names none.
pub open spec fn exif_turn(raw: Option<Seq<u8>>) -> Orientation {
    match raw {
        Some(x) => match spec_orientation(x) {
            Some(o) => o,
            None => Orientation::Normal,
        },
        None => Orientation::Normal,
    }
}

/// The image of decoded WebP pixels: the header's size and layout, the
/// profile beside them, turned as the EXIF chunk says when asked to.
pub open spec fn webp_image_ok(r: Result<Image, Error>, bytes: Seq<u8>, opts: DecodeOpts, w: u32, h: u32, color: ColorType, px: Seq<u8>) -> bool {
    match webp_icc_chunk(bytes) {
        Err(m) => r matches Err(Error::Codec(s)) && s@ == m,
        Ok(icc) => {
            let exif = if opts.apply_orientation { webp_exif_chunk(bytes) } else { Ok(None) };
            match exif {
                Err(m) => r matches Err(Error::Codec(s)) && s@ == m,
                Ok(raw) => match new_refusal(w, h, color, px.len()) {
                    Some(msg) => r matches Err(Error::InvalidInput(s)) && s@ == msg,
                    None => r matches Ok(img) && img@ == spec_apply(
                        ImageView { width: w, height: h, color, samples: SampleData::U8(px), meta: MetaView { icc, ..empty_meta() } },
                        exif_turn(raw),
                    ),
                },
            }
        },
    }
}

/// What decoding WebP bytes gives: the crate's refusal of the headers,
/// the pixel limit's, an output buffer that does not fit; then the pixels
/// read into a zeroed buffer of the output size, or the crate's refusal,
/// as an image of the header's size, RGBA exactly when the file has alpha,
/// with its profile and, when asked, its EXIF orientation applied.
pub open spec fn webp_decode_ok(r: Result<Image, Error>, bytes: Seq<u8>, opts: DecodeOpts) -> bool {
    match webp_header(bytes) {
        Err(m) => r matches Err(Error::Codec(s)) && s@ == m,
        Ok((w, h, alpha, n)) => if w * h > opts.max_pixels {
            r matches Err(Error::TooLarge { pixels, limit }) && pixels == w * h && limit == opts.max_pixels
        } else if n is None {
            r matches Err(Error::Codec(s)) && s@ == "output buffer size overflow"@
        } else {
            match webp_pixels(bytes, Seq::new(n.unwrap() as nat, |i: int| 0u8)) {
                Err(m) => r matches Err(Error::Codec(s)) && s@ == m,
                Ok(px) => webp_image_ok(r, bytes, opts, w, h, if alpha { ColorType::Rgba } else { ColorType::Rgb }, px),
            }
        },
    }
}

/// A decoded WebP stands upright as its EXIF chunk says when asked to,
/// and as stored when not: without `apply_orientation` the image is the
/// stored pixels at the header's size, EXIF unread; with it and an EXIF
/// `Orientation` naming `o`, the stored pixels with `o` applied, the axes
/// exchanged exactly when `o` turns them a quarter; with it and no chunk,
/// or one that names no orientation, the stored pixels again.
pub proof fn lemma_webp_upright(r: Result<Image, Error>, bytes: Seq<u8>, opts: DecodeOpts)
    requires
        webp_decode_ok(r, bytes, opts),
    ensures
        r matches Ok(img) ==> webp_header(bytes) matches Ok((w, h, alpha, n)) && n matches Some(size)
            && webp_pixels(bytes, Seq::new(size as nat, |i: int| 0u8)) matches Ok(px)
            && webp_icc_chunk(bytes) matches Ok(icc) && {
                let stored = ImageView {
                    width: w,
                    height: h,
                    color: if alpha { ColorType::Rgba } else { ColorType::Rgb },
                    samples: SampleData::U8(px),
                    meta: MetaView { icc, ..empty_meta() },
                };
                &&& !opts.apply_orientation ==> img@ == stored
                &&& opts.apply_orientation ==> (webp_exif_chunk(bytes) matches Ok(Some(e)) ==> (spec_orientation(e) matches Some(o) ==> {
                    &&& img@ == spec_apply(stored, o)
                    &&& (img@.width, img@.height) == if crate::image::spec_swaps_axes(o) { (h, w) } else { (w, h) }
                }))
                &&& opts.apply_orientation && (webp_exif_chunk(bytes) == Ok::<Option<Seq<u8>>, Seq<char>>(None)
                    || (webp_exif_chunk(bytes) matches Ok(Some(e)) && spec_orientation(e) is None)) ==> img@ == stored
            },
{
}

/// WebP decoder.
#[derive(Debug, Clone, Copy, Default)]
pub struct WebPDecoder;

impl WebPDecoder {
    /// What this decoder is.
    pub fn caps(&self) -> (r: DecoderCaps)
        ensures
            r.format == Format::WebP && !r.animation && r.tier == Tier::Portable,
    {
        DecoderCaps { format: Format::WebP, name: "image-webp", animation: false, tier: Tier::Portable }
    }

    /// The RIFF header check; animated when a `VP8X` chunk says so.
    pub fn probe(&self, bytes: &[u8]) -> (r: Option<FormatInfo>)
        ensures
            r == if spec_is_webp(bytes@) {
                Some(FormatInfo { format: Format::WebP, animated: spec_webp_animated(bytes@) })
            } else {
                None
            },
    {
        if bytes.len() < 16 || !(bytes[0] == 0x52 && bytes[1] == 0x49 && bytes[2] == 0x46 && bytes[3] == 0x46)
            || !(bytes[8] == 0x57 && bytes[9] == 0x45 && bytes[10] == 0x42 && bytes[11] == 0x50) {
            return None;
        }
        let animated = bytes[12] == 0x56 && bytes[13] == 0x50 && bytes[14] == 0x38 && bytes[15] == 0x58
            && bytes.len() > 20 && (bytes[20] / 2) % 2 == 1;
        Some(FormatInfo { format: Format::WebP, animated })
    }

    /// Decodes lossy, lossless and the first frame of animated WebP.
    ///
    /// # Errors
    /// The crate's messages as `Codec`, `TooLarge` above the pixel limit.
    pub fn decode(&self, bytes: &[u8], opts: &DecodeOpts) -> (r: Result<Image, Error>)
        ensures
            webp_decode_ok(r, bytes@, *opts),
    {
        let (width, height, alpha, size) = match webp_open(bytes) {
            Ok(v) => v,
            Err(m) => return Err(Error::Codec(m)),
        };
        match opts.check_pixels(width, height) {
            Ok(()) => {},
            Err(e) => return Err(e),
        }
        let color = if alpha { ColorType::Rgba } else { ColorType::Rgb };
        let size = match size {
            Some(n) => n,
            None => {
                let mut m = String::new();
                push_str(&mut m, "output buffer size overflow");
                return Err(Error::Codec(m));
            },
        };
        let mut buf = zeroed_bytes(size);
        assert(buf@ =~= Seq::new(size as nat, |i: int| 0u8));
        match webp_read(bytes, &mut buf) {
            Ok(()) => {},
            Err(m) => return Err(Error::Codec(m)),
        }
        let icc = match webp_icc(bytes) {
            Ok(i) => i,
            Err(m) => return Err(Error::Codec(m)),
        };
        let turn = if opts.apply_orientation {
            match webp_exif(bytes) {
                Err(m) => return Err(Error::Codec(m)),
                Ok(Some(raw)) => match orientation(raw.as_slice()) {
                    Some(o) => o,
                    None => Orientation::Normal,
                },
                Ok(None) => Orientation::Normal,
            }
        } else {
            Orientation::Normal
        };
        match Image::from_u8(width, height, color, buf) {
            Ok(img) => {
                let img = img.with_icc(icc);
                proof { assert(img@.meta == (MetaView { icc: blob_view(icc), ..empty_meta() })); }
                Ok(img.apply_orientation(turn))
            },
            Err(e) => Err(e),
        }
    }
}

} // verus!
