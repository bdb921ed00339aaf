//! The decoders this build carries, in registration order, and the decode
//! of an input through the one the registry picks.

use vstd::prelude::*;
use crate::codecs::avif::{AvifDecoder, avif_decode_ok, spec_avif_probe};
use crate::codecs::exr::{ExrDecoder, exr_decode_ok, exr_first_layer, spec_exr_header, spec_is_exr};
use crate::codecs::gif::{GifDecoder, gif_decode_ok, spec_gif_probe};
use crate::bytes::le16;
use crate::codecs::heif;
use crate::codecs::jpeg::{JpegDecoder, jpeg_decode_ok, jpeg_header_fields, spec_is_jpeg, spec_read_headers};
use crate::codecs::jxl::{JxlDecoder, spec_is_jxl};
use crate::codecs::png::{PngDecoder, PngEncoder, key_views, png_decode_ok, png_encode_ok, spec_png_dimensions, spec_png_probe};
use crate::codecs::svg::{SvgDecoder, spec_has_text, spec_root_is_svg, svg_plain_decode_ok, svg_plain_size};
use crate::codecs::tiff::{TiffDecoder, spec_tiff_magic, tiff_decode_ok, tiff_stored_size};
use crate::codecs::webp::{WebPDecoder, spec_is_webp, spec_webp_animated, webp_decode_ok};
use crate::error::Error;
use crate::format::{DecoderCaps, EncoderCaps, Format, FormatInfo, spec_encoder_features};
use crate::image::{ColorType, Image};
use crate::params::DecodeOpts;
use crate::registry::{Sniff, decode_ok, decode_pick, encoder_pick, probe, spec_first_recognised, spec_owner, spec_first_usable, spec_probe, spec_reasons, usable};

verus! {

/// One compiled-in decoder.
#[derive(Debug, Clone, Copy, PartialEq, Eq, Structural)]
pub enum Backend {
    /// `zune-jpeg`.
    Jpeg,
    /// `png`.
    Png,
    /// `image-webp`.
    WebP,
    /// `avif-parse`, `re_rav1d` and `yuv`.
    Avif,
    /// `jxl-oxide`.
    Jxl,
    /// `gif`.
    Gif,
    /// `tiff`.
    Tiff,
    /// `exr`.
    Exr,
    /// `resvg`.
    Svg,
}

/// Registration order: the formats with a magic number first, SVG last.
pub open spec fn registered() -> Seq<Backend> {
    seq![Backend::Jpeg, Backend::Png, Backend::WebP, Backend::Avif, Backend::Jxl, Backend::Gif, Backend::Tiff,
        Backend::Exr, Backend::Svg]
}

/// The decoders in registration order.
pub fn decoders() -> (r: Vec<Backend>)
    ensures
        r@ == registered(),
{
    let r = vec![Backend::Jpeg, Backend::Png, Backend::WebP, Backend::Avif, Backend::Jxl, Backend::Gif,
        Backend::Tiff, Backend::Exr, Backend::Svg];
    assert(r@ =~= registered());
    r
}

/// Whether a decoder's probe claims the bytes.
pub open spec fn claims(b: Backend, bytes: Seq<u8>) -> bool {
    match b {
        Backend::Jpeg => spec_is_jpeg(bytes),
        Backend::Png => spec_png_probe(bytes) is Some,
        Backend::WebP => spec_is_webp(bytes),
        Backend::Avif => spec_avif_probe(bytes) is Some,
        Backend::Jxl => spec_is_jxl(bytes),
        Backend::Gif => spec_gif_probe(bytes) is Some,
        Backend::Tiff => spec_tiff_magic(bytes),
        Backend::Exr => spec_is_exr(bytes),
        Backend::Svg => spec_root_is_svg(bytes),
    }
}

/// What a decoder's decode is held to. JPEG XL and SVG documents with
/// text rest on what their backends' contracts say of every outcome.
pub open spec fn backend_decode_ok(b: Backend, r: Result<Image, Error>, bytes: Seq<u8>, opts: DecodeOpts) -> bool {
    match b {
        Backend::Jpeg => jpeg_decode_ok(r, bytes, opts),
        Backend::Png => png_decode_ok(r, bytes, opts),
        Backend::WebP => webp_decode_ok(r, bytes, opts),
        Backend::Avif => avif_decode_ok(r, bytes, opts),
        Backend::Jxl => (r matches Ok(img) ==> !(img@.samples is F32) && img@.meta.exif is None && img@.meta.xmp is None)
            && (r matches Err(e) ==> e is Codec || e is TooLarge || e is InvalidInput),
        Backend::Gif => gif_decode_ok(r, bytes, opts),
        Backend::Tiff => tiff_decode_ok(r, bytes, opts),
        Backend::Exr => exr_decode_ok(r, bytes, opts),
        Backend::Svg => (r matches Err(Error::TooLarge { pixels, limit }) ==> limit == opts.max_pixels && pixels > limit)
            && (r matches Ok(img) ==> img@.width * img@.height <= opts.max_pixels
                && (img@.color == ColorType::Rgb || img@.color == ColorType::Rgba) && img@.samples is U8)
            && (!spec_has_text(bytes) ==> svg_plain_decode_ok(r, bytes, opts)),
    }
}

/// The size each decoder reads from the header without decoding: the
/// one its own contract states; `None` for WebP and AVIF, which read none.
/// For JPEG XL, and SVG documents with text, the size comes from an
/// outside parse whose result is not stated, and this is `None`.
pub open spec fn backend_dimensions(b: Backend, bytes: Seq<u8>) -> Option<(u32, u32)> {
    match b {
        Backend::Jpeg => if spec_is_jpeg(bytes) {
            match spec_read_headers(jpeg_header_fields(bytes)) {
                Ok((w, h, _)) => Some((w, h)),
                Err(_) => None,
            }
        } else {
            None
        },
        Backend::Png => spec_png_dimensions(bytes),
        Backend::Gif => if spec_gif_probe(bytes).is_some() {
            Some((le16(bytes, 6) as u32, le16(bytes, 8) as u32))
        } else {
            None
        },
        Backend::Tiff => if spec_tiff_magic(bytes) { tiff_stored_size(bytes) } else { None },
        Backend::Exr => if spec_is_exr(bytes) {
            match spec_exr_header(exr_first_layer(bytes)) {
                Ok((size, _)) => Some(size),
                Err(_) => None,
            }
        } else {
            None
        },
        Backend::Svg => if spec_root_is_svg(bytes) {
            match svg_plain_size(bytes) {
                Ok(s) => Some(s),
                Err(_) => None,
            }
        } else {
            None
        },
        Backend::WebP | Backend::Avif | Backend::Jxl => None,
    }
}

/// What each decoder's probe answers, as its contract states it; for JPEG
/// XL only that it claims the bytes, the animation flag coming from an
/// outside parse.
pub open spec fn backend_probe(b: Backend, bytes: Seq<u8>) -> Option<FormatInfo> {
    match b {
        Backend::Jpeg => if spec_is_jpeg(bytes) { Some(FormatInfo { format: Format::Jpeg, animated: false }) } else { None },
        Backend::Png => spec_png_probe(bytes),
        Backend::WebP => if spec_is_webp(bytes) {
            Some(FormatInfo { format: Format::WebP, animated: spec_webp_animated(bytes) })
        } else {
            None
        },
        Backend::Avif => spec_avif_probe(bytes),
        Backend::Jxl => if spec_is_jxl(bytes) { Some(FormatInfo { format: Format::Jxl, animated: false }) } else { None },
        Backend::Gif => spec_gif_probe(bytes),
        Backend::Tiff => if spec_tiff_magic(bytes) { Some(FormatInfo { format: Format::Tiff, animated: false }) } else { None },
        Backend::Exr => if spec_is_exr(bytes) { Some(FormatInfo { format: Format::Exr, animated: false }) } else { None },
        Backend::Svg => if spec_root_is_svg(bytes) { Some(FormatInfo { format: Format::Svg, animated: false }) } else { None },
    }
}

/// The format each decoder reads.
pub open spec fn backend_format(b: Backend) -> Format {
    match b {
        Backend::Jpeg => Format::Jpeg,
        Backend::Png => Format::Png,
        Backend::WebP => Format::WebP,
        Backend::Avif => Format::Avif,
        Backend::Jxl => Format::Jxl,
        Backend::Gif => Format::Gif,
        Backend::Tiff => Format::Tiff,
        Backend::Exr => Format::Exr,
        Backend::Svg => Format::Svg,
    }
}

impl Backend {
    /// What the decoder is.
    pub fn caps(self) -> (r: DecoderCaps)
        ensures
            r.format == backend_format(self),
    {
        match self {
            Backend::Jpeg => JpegDecoder.caps(),
            Backend::Png => PngDecoder.caps(),
            Backend::WebP => WebPDecoder.caps(),
            Backend::Avif => AvifDecoder.caps(),
            Backend::Jxl => JxlDecoder.caps(),
            Backend::Gif => GifDecoder.caps(),
            Backend::Tiff => TiffDecoder.caps(),
            Backend::Exr => ExrDecoder.caps(),
            Backend::Svg => SvgDecoder.caps(),
        }
    }

    /// What the decoder's probe recognises the bytes as.
    pub fn probe(self, bytes: &[u8]) -> (r: Option<FormatInfo>)
        ensures
            r is Some == claims(self, bytes@),
            r matches Some(i) ==> i.format == backend_format(self),
            self != Backend::Jxl ==> r == backend_probe(self, bytes@),
    {
        match self {
            Backend::Jpeg => JpegDecoder.probe(bytes),
            Backend::Png => PngDecoder.probe(bytes),
            Backend::WebP => WebPDecoder.probe(bytes),
            Backend::Avif => AvifDecoder.probe(bytes),
            Backend::Jxl => JxlDecoder.probe(bytes),
            Backend::Gif => GifDecoder.probe(bytes),
            Backend::Tiff => TiffDecoder.probe(bytes),
            Backend::Exr => ExrDecoder.probe(bytes),
            Backend::Svg => SvgDecoder.probe(bytes),
        }
    }

    /// The size the decoder reads from the header without decoding, for
    /// the decoders that read one.
    pub fn dimensions(self, bytes: &[u8]) -> (r: Option<(u32, u32)>)
        ensures
            r is Some ==> claims(self, bytes@),
            self != Backend::Jxl && self != Backend::Svg ==> r == backend_dimensions(self, bytes@),
            self == Backend::Svg && !spec_has_text(bytes@) ==> r == backend_dimensions(self, bytes@),
            self == Backend::Svg ==> (r matches Some((w, h)) ==> w >= 1 && h >= 1),
    {
        match self {
            Backend::Jpeg => JpegDecoder.dimensions(bytes),
            Backend::Png => PngDecoder.dimensions(bytes),
            Backend::Jxl => JxlDecoder.dimensions(bytes),
            Backend::Gif => GifDecoder.dimensions(bytes),
            Backend::Tiff => TiffDecoder.dimensions(bytes),
            Backend::Exr => ExrDecoder.dimensions(bytes),
            Backend::Svg => SvgDecoder.dimensions(bytes),
            Backend::WebP | Backend::Avif => None,
        }
    }

    /// The decoder's decode.
    pub fn decode(self, bytes: &[u8], opts: &DecodeOpts) -> (r: Result<Image, Error>)
        ensures
            backend_decode_ok(self, r, bytes@, *opts),
    {
        match self {
            Backend::Jpeg => JpegDecoder.decode(bytes, opts),
            Backend::Png => PngDecoder.decode(bytes, opts),
            Backend::WebP => WebPDecoder.decode(bytes, opts),
            Backend::Avif => AvifDecoder.decode(bytes, opts),
            Backend::Jxl => JxlDecoder.decode(bytes, opts),
            Backend::Gif => GifDecoder.decode(bytes, opts),
            Backend::Tiff => TiffDecoder.decode(bytes, opts),
            Backend::Exr => ExrDecoder.decode(bytes, opts),
            Backend::Svg => SvgDecoder.decode(bytes, opts),
        }
    }
}

/// What every decoder of this build says about the bytes: all of them
/// can run here.
pub open spec fn sniffs_agree(s: Seq<Sniff>, bytes: Seq<u8>) -> bool {
    &&& s.len() == registered().len()
    &&& forall|i: int| 0 <= i < s.len() ==> {
        &&& (#[trigger] s[i]).info is Some == claims(registered()[i], bytes)
        &&& s[i].unavailable is None
        &&& s[i].caps.format == backend_format(registered()[i])
        &&& (s[i].info matches Some(f) ==> f.format == backend_format(registered()[i]))
        &&& (registered()[i] != Backend::Jxl ==> s[i].info == backend_probe(registered()[i], bytes))
    }
}

/// Every decoder's answer, in registration order.
pub fn sniffs(bytes: &[u8]) -> (r: Vec<Sniff>)
    ensures
        sniffs_agree(r@, bytes@),
{
    let ds = decoders();
    let mut out: Vec<Sniff> = Vec::new();
    let mut i: usize = 0;
    while i < ds.len()
        invariant
            ds@ == registered(),
            i <= ds@.len(),
            out@.len() == i,
            forall|j: int| 0 <= j < i ==> {
                &&& (#[trigger] out@[j]).info is Some == claims(registered()[j], bytes@)
                &&& out@[j].unavailable is None
                &&& out@[j].caps.format == backend_format(registered()[j])
                &&& (out@[j].info matches Some(f) ==> f.format == backend_format(registered()[j]))
                &&& (registered()[j] != Backend::Jxl ==> out@[j].info == backend_probe(registered()[j], bytes@))
            },
        decreases ds@.len() - i,
    {
        let b = ds[i];
        out.push(Sniff { caps: b.caps(), info: b.probe(bytes), unavailable: None });
        i = i + 1;
    }
    out
}

/// The first of the first `n` registered decoders that claims the bytes.
pub open spec fn first_claim(bytes: Seq<u8>, n: int) -> Option<int>
    decreases n,
{
    if n <= 0 {
        None
    } else {
        match first_claim(bytes, n - 1) {
            Some(i) => Some(i),
            None => if claims(registered()[n - 1], bytes) { Some(n - 1) } else { None },
        }
    }
}

/// With every decoder able to run, the first usable one is the first
/// that claims the bytes, nothing is recognised when none claims them,
/// and there are no reasons to give.
proof fn lemma_sniffs_pick(s: Seq<Sniff>, bytes: Seq<u8>, n: int)
    requires
        sniffs_agree(s, bytes),
        0 <= n <= s.len(),
    ensures
        spec_first_usable(s.subrange(0, n)) == first_claim(bytes, n),
        first_claim(bytes, n) is None ==> spec_first_recognised(s.subrange(0, n)) is None,
        spec_reasons(s.subrange(0, n)).len() == 0,
        first_claim(bytes, n) matches Some(i) ==> 0 <= i < n && s[i].info is Some,
    decreases n,
{
    if n > 0 {
        lemma_sniffs_pick(s, bytes, n - 1);
        assert(s.subrange(0, n).drop_last() =~= s.subrange(0, n - 1));
        assert(s.subrange(0, n).last() == s[n - 1]);
        assert(usable(s[n - 1]) == claims(registered()[n - 1], bytes));
    }
}

/// Decodes the bytes with the first decoder, in registration order, that
/// claims them; the decoder's result is this one's, beside what its
/// probe recognised. When none does, HEIC bytes are reported as a
/// format this build has no decoder for, and anything else as unknown.
pub fn decode(bytes: &[u8], opts: &DecodeOpts) -> (r: Result<(Image, FormatInfo), Error>)
    ensures
        match first_claim(bytes@, 9) {
            Some(i) => match r {
                Ok((img, info)) => backend_decode_ok(registered()[i], Ok(img), bytes@, *opts)
                    && info.format == backend_format(registered()[i])
                    && (registered()[i] != Backend::Jxl ==> Some(info) == backend_probe(registered()[i], bytes@)),
                Err(e) => backend_decode_ok(registered()[i], Err(e), bytes@, *opts),
            },
            None => match heif::spec_probe(bytes@) {
                Some(info) => r matches Err(Error::DecoderUnavailable { format, reason, .. }) && format == info.format
                    && reason is None,
                None => r matches Err(Error::UnknownFormat),
            },
        },
{
    let s = sniffs(bytes);
    let pick = decode_pick(s.as_slice(), heif::probe(bytes));
    proof {
        lemma_sniffs_pick(s@, bytes@, 9);
        assert(s@.subrange(0, 9) =~= s@);
        assert(spec_first_usable(s@) == first_claim(bytes@, 9));
    }
    match pick {
        Ok((i, info)) => {
            assert(first_claim(bytes@, 9) == Some(i as int));
            assert(info == s@[i as int].info.unwrap());
            let b = decoders()[i];
            match b.decode(bytes, opts) {
                Ok(img) => Ok((img, info)),
                Err(e) => Err(e),
            }
        },
        Err(e) => Err(e),
    }
}

/// The header size of the bytes, from the first decoder, in registration
/// order, that claims them; `None` when none does.
pub fn dimensions(bytes: &[u8]) -> (r: Option<(u32, u32)>)
    ensures
        match first_claim(bytes@, 9) {
            Some(i) => {
                &&& (r is Some ==> claims(registered()[i], bytes@))
                &&& (registered()[i] != Backend::Jxl && (registered()[i] != Backend::Svg || !spec_has_text(bytes@))
                    ==> r == backend_dimensions(registered()[i], bytes@))
            },
            None => r is None,
        },
{
    let s = sniffs(bytes);
    proof {
        lemma_sniffs_pick(s@, bytes@, 9);
        assert(s@.subrange(0, 9) =~= s@);
    }
    match probe(s.as_slice()) {
        Some((_, i)) => decoders()[i].dimensions(bytes),
        None => None,
    }
}

/// The encoders of this build: the `png` writer.
pub fn encoders() -> (r: Vec<EncoderCaps>)
    ensures
        r@.len() == 1,
        r@[0].format == Format::Png,
{
    vec![PngEncoder.caps()]
}

/// Encodes the image with the encoder of this build for `format`: PNG as
/// [`PngEncoder::encode`] does; any other format is refused with the
/// features that would add an encoder for it.
pub fn encode(format: Format, img: &Image, effort: u8, codec_keys: &[String]) -> (r: Result<Vec<u8>, Error>)
    ensures
        format == Format::Png ==> png_encode_ok(r, img@, effort, key_views(codec_keys@)),
        format != Format::Png ==> (r matches Err(Error::EncoderUnavailable { format: f, available_in })
            && f == format && available_in@ == spec_encoder_features(format)),
{
    let formats = vec![Format::Png];
    assert(formats@.drop_last() =~= Seq::<Format>::empty());
    assert(formats@.last() == Format::Png);
    assert(spec_owner(formats@.drop_last(), format) is None);
    assert(format != Format::Png ==> spec_owner(formats@, format) is None);
    match encoder_pick(formats.as_slice(), format) {
        Ok(_) => PngEncoder.encode(img, effort, codec_keys),
        Err(e) => Err(e),
    }
}

} // verus!
