//! PNG and APNG sniffing: the signature, the `acTL` chunk that marks an
//! animation, and the size in `IHDR`.

use vstd::prelude::*;
use std::borrow::Cow;
use png::{BitDepth, Compression, Encoder, Filter, Info};
use crate::bytes::{starts_with, has_prefix, be32_at, read_be32};
use crate::codecs::pixels::{be16_samples, be16_seq, built, zeroed_bytes};
use crate::error::Error;
use crate::format::{CodecOption, EncoderCaps, Format, FormatInfo, DecoderCaps, Tier};
use crate::image::{ColorType, Image, ImageView, MetaView, SampleData, Samples, blob_view};
use crate::params::DecodeOpts;
use crate::text::{chars_of, push_str, string_of};

verus! {

/// The eight bytes every PNG starts with.
pub open spec fn png_signature() -> Seq<u8> {
    seq![0x89u8, 0x50, 0x4E, 0x47, 0x0D, 0x0A, 0x1A, 0x0A]
}

/// The signature, for code.
pub fn signature() -> (r: [u8; 8])
    ensures
        r@ == png_signature(),
{
    [0x89, 0x50, 0x4E, 0x47, 0x0D, 0x0A, 0x1A, 0x0A]
}

/// Whether the four bytes at `at` are the chunk type `a b c d`.
pub open spec fn chunk_is(b: Seq<u8>, at: int, a: u8, c1: u8, c2: u8, c3: u8) -> bool {
    b[at] == a && b[at + 1] == c1 && b[at + 2] == c2 && b[at + 3] == c3
}

/// Walking chunk headers from `pos` up to the first `IDAT` or `IEND`:
/// whether an `acTL` comes first.
pub open spec fn actl_from(b: Seq<u8>, pos: int) -> bool
    decreases b.len() - pos,
{
    if pos + 8 > b.len() || pos < 0 {
        false
    } else if chunk_is(b, pos + 4, 0x61, 0x63, 0x54, 0x4C) {
        true
    } else if chunk_is(b, pos + 4, 0x49, 0x44, 0x41, 0x54) || chunk_is(b, pos + 4, 0x49, 0x45, 0x4E, 0x44) {
        false
    } else {
        proof {
            crate::bytes::lemma_be32_range(b, pos);
        }
        let next = pos + be32_at(b, pos) + 12;
        if next > b.len() { false } else { actl_from(b, next) }
    }
}

/// Whether an `acTL` chunk comes before the image data.
pub fn has_actl_chunk(bytes: &[u8]) -> (r: bool)
    ensures
        r == actl_from(bytes@, 8),
{
    let n = bytes.len();
    let mut pos: usize = 8;
    while n >= 8 && pos <= n - 8
        invariant
            n == bytes@.len(),
            actl_from(bytes@, 8) == actl_from(bytes@, pos as int),
        decreases n - pos,
    {
        let len = read_be32(bytes, pos);
        let k = pos + 4;
        if bytes[k] == 0x61 && bytes[k + 1] == 0x63 && bytes[k + 2] == 0x54 && bytes[k + 3] == 0x4C {
            return true;
        }
        if bytes[k] == 0x49 && ((bytes[k + 1] == 0x44 && bytes[k + 2] == 0x41 && bytes[k + 3] == 0x54)
            || (bytes[k + 1] == 0x45 && bytes[k + 2] == 0x4E && bytes[k + 3] == 0x44)) {
            return false;
        }
        let step = (len as u64) + 12;
        if step > (n - pos) as u64 {
            return false;
        }
        pos = pos + step as usize;
    }
    false
}

/// The sniff: the signature, and whether an `acTL` chunk makes it an
/// animation.
pub open spec fn spec_png_probe(b: Seq<u8>) -> Option<FormatInfo> {
    if starts_with(b, png_signature()) {
        Some(FormatInfo { format: Format::Png, animated: actl_from(b, 8) })
    } else {
        None
    }
}

/// The size in `IHDR`, always the first chunk.
pub open spec fn spec_png_dimensions(b: Seq<u8>) -> Option<(u32, u32)> {
    if spec_png_probe(b).is_some() && b.len() >= 24 && chunk_is(b, 12, 0x49, 0x48, 0x44, 0x52) {
        Some((be32_at(b, 16) as u32, be32_at(b, 20) as u32))
    } else {
        None
    }
}

/// What `png` reads of the header with the `EXPAND` transformation and an
/// allocation limit in bytes: width, height, ICC profile, the output colour
/// type's code (0 gray, 2 RGB, 3 indexed, 4 gray with alpha, 6 RGBA), the
/// output bit depth and the output buffer size; or the crate's message.
pub uninterp spec fn png_header(bytes: Seq<u8>, limit: usize) -> Result<(u32, u32, Option<Seq<u8>>, u8, u8, Option<usize>), Seq<char>>;

/// `png::Decoder::new` over the bytes, `set_transformations(EXPAND)`,
/// `set_limits` with `limit` bytes and `read_info`; then the reader's
/// `info()` width, height and ICC profile, `output_color_type()` as codes
/// and `output_buffer_size()`. The contract names that header.
#[verifier::external_body]
fn png_open(bytes: &[u8], limit: usize) -> (r: Result<(u32, u32, Option<Vec<u8>>, u8, u8, Option<usize>), String>)
    ensures
        match r {
            Ok((w, h, icc, c, d, n)) => png_header(bytes@, limit) == Ok::<(u32, u32, Option<Seq<u8>>, u8, u8, Option<usize>), Seq<char>>((w, h, blob_view(icc), c, d, n)),
            Err(m) => png_header(bytes@, limit) == Err::<(u32, u32, Option<Seq<u8>>, u8, u8, Option<usize>), Seq<char>>(m@),
        },
{
    let mut d = png::Decoder::new(std::io::Cursor::new(bytes));
    d.set_transformations(png::Transformations::EXPAND);
    d.set_limits(png::Limits { bytes: limit });
    let reader = d.read_info().map_err(|e| e.to_string())?;
    let (color, depth) = reader.output_color_type();
    let info = reader.info();
    Ok((info.width, info.height, info.icc_profile.as_ref().map(|c| c.to_vec()), color as u8, depth as u8, reader.output_buffer_size()))
}

/// What `png` makes of the first frame when a reader opened as in
/// [`png_open`] writes it into a buffer holding `buf`: the frame's size and
/// the buffer afterwards; or the crate's message.
pub uninterp spec fn png_frame(bytes: Seq<u8>, limit: usize, buf: Seq<u8>) -> Result<(usize, Seq<u8>), Seq<char>>;

/// A reader opened as in [`png_open`], then `Reader::next_frame` into the
/// buffer: the size of the frame it wrote (`buffer_size`), or the crate's
/// message. The contract names the frame and the buffer it leaves; the
/// buffer keeps its length.
#[verifier::external_body]
fn png_read_frame(bytes: &[u8], limit: usize, buf: &mut Vec<u8>) -> (r: Result<usize, String>)
    ensures
        final(buf)@.len() == old(buf)@.len(),
        match r {
            Ok(k) => png_frame(bytes@, limit, old(buf)@) == Ok::<(usize, Seq<u8>), Seq<char>>((k, final(buf)@)),
            Err(m) => png_frame(bytes@, limit, old(buf)@) == Err::<(usize, Seq<u8>), Seq<char>>(m@),
        },
{
    let mut d = png::Decoder::new(std::io::Cursor::new(bytes));
    d.set_transformations(png::Transformations::EXPAND);
    d.set_limits(png::Limits { bytes: limit });
    let mut reader = d.read_info().map_err(|e| e.to_string())?;
    reader.next_frame(buf).map(|f| f.buffer_size()).map_err(|e| e.to_string())
}

/// The allocation budget for RGBA16 at the pixel limit: eight bytes a
/// pixel, saturating, and capped at the address space.
pub open spec fn png_limit(max_pixels: u64) -> usize {
    let b = if max_pixels * 8 > u64::MAX { u64::MAX as int } else { max_pixels * 8 };
    if b > usize::MAX { usize::MAX } else { b as usize }
}

fn limit_bytes(max_pixels: u64) -> (r: usize)
    ensures
        r == png_limit(max_pixels),
{
    let b = match max_pixels.checked_mul(8) {
        Some(b) => b,
        None => u64::MAX,
    };
    if b as u128 > usize::MAX as u128 { usize::MAX } else { b as usize }
}

/// The layout for an output colour type code; `None` for indexed colour,
/// which `EXPAND` turns into RGB(A).
pub open spec fn png_color(code: u8) -> Option<ColorType> {
    if code == 0 {
        Some(ColorType::Gray)
    } else if code == 4 {
        Some(ColorType::GrayAlpha)
    } else if code == 2 {
        Some(ColorType::Rgb)
    } else if code == 6 {
        Some(ColorType::Rgba)
    } else {
        None
    }
}

/// How a bit depth is named when it is not one the image can hold.
pub open spec fn depth_name(d: u8) -> Seq<char> {
    if d == 1 { "One"@ } else if d == 2 { "Two"@ } else if d == 4 { "Four"@ } else if d == 8 { "Eight"@ } else { "Sixteen"@ }
}

/// What a decoded PNG frame becomes: 8-bit samples as they are, 16-bit
/// ones read big-endian, with the ICC profile beside them.
pub open spec fn png_image_ok(r: Result<Image, Error>, w: u32, h: u32, color: ColorType, depth: u8, icc: Option<Seq<u8>>, buf: Seq<u8>) -> bool {
    let meta = MetaView { icc, exif: None, xmp: None };
    if depth == 8 {
        built(r, w, h, color, SampleData::U8(buf), meta)
    } else if depth == 16 {
        built(r, w, h, color, SampleData::U16(be16_seq(buf)), meta)
    } else {
        r matches Err(Error::Codec(m)) && m@ == "bit depth "@ + depth_name(depth) + " survived EXPAND"@
    }
}

/// The image of a decoded PNG frame.
///
/// # Errors
/// `Codec` for a bit depth other than 8 or 16, and what [`Image::new`]
/// refuses.
pub fn png_image(width: u32, height: u32, color: ColorType, depth: u8, icc: Option<Vec<u8>>, buf: Vec<u8>) -> (r: Result<Image, Error>)
    ensures
        png_image_ok(r, width, height, color, depth, blob_view(icc), buf@),
{
    let samples = if depth == 8 {
        Samples::U8(buf)
    } else if depth == 16 {
        Samples::U16(be16_samples(buf.as_slice()))
    } else {
        let mut m = String::new();
        push_str(&mut m, "bit depth ");
        push_str(&mut m, if depth == 1 { "One" } else if depth == 2 { "Two" } else if depth == 4 { "Four" } else { "Sixteen" });
        push_str(&mut m, " survived EXPAND");
        return Err(Error::Codec(m));
    };
    match Image::new(width, height, color, samples) {
        Ok(img) => Ok(img.with_icc(icc)),
        Err(e) => Err(e),
    }
}

/// The first `k` bytes, or all of them when there are fewer: what
/// `Vec::truncate` leaves.
pub open spec fn truncated(buf: Seq<u8>, k: usize) -> Seq<u8> {
    if k < buf.len() { buf.subrange(0, k as int) } else { buf }
}

/// What decoding PNG bytes gives: the crate's refusal of the header, the
/// pixel limit's, indexed colour surviving the expansion, an output buffer
/// that does not fit; then the first frame read into a zeroed buffer of
/// the output size, cut to the frame's size, or the crate's refusal of
/// it.
pub open spec fn png_decode_ok(r: Result<Image, Error>, bytes: Seq<u8>, opts: DecodeOpts) -> bool {
    match png_header(bytes, png_limit(opts.max_pixels)) {
        Err(m) => r matches Err(Error::Codec(s)) && s@ == m,
        Ok((w, h, icc, c, d, n)) => if w * h > opts.max_pixels {
            r matches Err(Error::TooLarge { pixels, limit }) && pixels == w * h && limit == opts.max_pixels
        } else if png_color(c) is None {
            r matches Err(Error::Codec(s)) && s@ == "palette survived EXPAND"@
        } else if n is None {
            r matches Err(Error::Codec(s)) && s@ == "output buffer size overflow"@
        } else {
            match png_frame(bytes, png_limit(opts.max_pixels), Seq::new(n.unwrap() as nat, |i: int| 0u8)) {
                Err(m) => r matches Err(Error::Codec(s)) && s@ == m,
                Ok((k, buf)) => png_image_ok(r, w, h, png_color(c).unwrap(), d, icc, truncated(buf, k)),
            }
        },
    }
}

/// PNG and APNG decoder; APNG yields the first frame.
#[derive(Debug, Clone, Copy, Default)]
pub struct PngDecoder;

impl PngDecoder {
    /// What this decoder is.
    pub fn caps(&self) -> (r: DecoderCaps)
        ensures
            r.format == Format::Png && !r.animation && r.tier == Tier::Portable,
    {
        DecoderCaps { format: Format::Png, name: "png", animation: false, tier: Tier::Portable }
    }

    /// The signature check; animated when an `acTL` chunk comes before the
    /// image data.
    pub fn probe(&self, bytes: &[u8]) -> (r: Option<FormatInfo>)
        ensures
            r == spec_png_probe(bytes@),
    {
        let sig = signature();
        if has_prefix(bytes, &sig) {
            Some(FormatInfo { format: Format::Png, animated: has_actl_chunk(bytes) })
        } else {
            None
        }
    }

    /// Width and height from `IHDR`.
    pub fn dimensions(&self, bytes: &[u8]) -> (r: Option<(u32, u32)>)
        ensures
            r == spec_png_dimensions(bytes@),
    {
        if self.probe(bytes).is_none() || bytes.len() < 24 {
            return None;
        }
        if !(bytes[12] == 0x49 && bytes[13] == 0x48 && bytes[14] == 0x44 && bytes[15] == 0x52) {
            return None;
        }
        Some((read_be32(bytes, 16), read_be32(bytes, 20)))
    }

    /// Decodes the first frame: palette to RGB, low bit depths to 8 bits,
    /// transparency to alpha; 16-bit samples stay 16-bit.
    ///
    /// # Errors
    /// The crate's messages as `Codec`, `TooLarge` above the pixel limit.
    pub fn decode(&self, bytes: &[u8], opts: &DecodeOpts) -> (r: Result<Image, Error>)
        ensures
            png_decode_ok(r, bytes@, *opts),
    {
        let limit = limit_bytes(opts.max_pixels);
        let (width, height, icc, code, depth, size) = match png_open(bytes, limit) {
            Ok(v) => v,
            Err(m) => return Err(Error::Codec(m)),
        };
        match opts.check_pixels(width, height) {
            Ok(()) => {},
            Err(e) => return Err(e),
        }
        let color = if code == 0 {
            ColorType::Gray
        } else if code == 4 {
            ColorType::GrayAlpha
        } else if code == 2 {
            ColorType::Rgb
        } else if code == 6 {
            ColorType::Rgba
        } else {
            let mut m = String::new();
            push_str(&mut m, "palette survived EXPAND");
            return Err(Error::Codec(m));
        };
        let size = match size {
            Some(n) => n,
            None => {
                let mut m = String::new();
                push_str(&mut m, "output buffer size overflow");
                return Err(Error::Codec(m));
            },
        };
        let mut buf = zeroed_bytes(size);
        assert(buf@ =~= Seq::new(size as nat, |i: int| 0u8));
        let written = match png_read_frame(bytes, limit, &mut buf) {
            Ok(n) => n,
            Err(m) => return Err(Error::Codec(m)),
        };
        let ghost whole = buf@;
        buf.truncate(written);
        assert(buf@ =~= truncated(whole, written));
        png_image(width, height, color, depth, icc, buf)
    }
}

/// The key of a `png:` option, its prefix taken off.
pub open spec fn png_key(k: Seq<char>) -> Option<Seq<char>> {
    if k.len() >= 4 && k[0] == 'p' && k[1] == 'n' && k[2] == 'g' && k[3] == ':' {
        Some(k.skip(4))
    } else {
        None
    }
}

/// The first `png:` option among the keys, in their order.
pub open spec fn first_png_key(keys: Seq<Seq<char>>) -> Option<Seq<char>>
    decreases keys.len(),
{
    if keys.len() == 0 {
        None
    } else {
        match png_key(keys[0]) {
            Some(k) => Some(k),
            None => first_png_key(keys.drop_first()),
        }
    }
}

/// The keys of a list of strings, as values.
pub open spec fn key_views(keys: Seq<String>) -> Seq<Seq<char>> {
    Seq::new(keys.len(), |i: int| keys[i]@)
}

/// PNG's own colour type number for a layout: 0 gray, 4 gray with alpha,
/// 2 RGB, 6 RGBA.
pub open spec fn png_color_code(c: ColorType) -> u8 {
    match c {
        ColorType::Gray => 0,
        ColorType::GrayAlpha => 4,
        ColorType::Rgb => 2,
        ColorType::Rgba => 6,
    }
}

/// The compression for an effort: `0` fastest (effort 0), `1` fast
/// (1 to 3), `2` balanced (4 to 7), `3` high (8 and above).
pub open spec fn png_level(effort: u8) -> u8 {
    if effort == 0 {
        0
    } else if effort <= 3 {
        1
    } else if effort <= 7 {
        2
    } else {
        3
    }
}

/// 16-bit samples as PNG stores them: each one big-endian, high byte
/// first.
pub open spec fn be16_bytes(v: Seq<u16>) -> Seq<u8> {
    Seq::new(v.len() * 2, |i: int| if i % 2 == 0 { (v[i / 2] / 256) as u8 } else { (v[i / 2] % 256) as u8 })
}

/// What `png` writes for an image of the given size, colour type number,
/// bit depth, ICC profile, compression (see [`png_level`]) and sample
/// bytes, with adaptive filtering; or the crate's message.
pub uninterp spec fn png_encoded(width: u32, height: u32, color: u8, depth: u8, icc: Option<Seq<u8>>, level: u8, data: Seq<u8>) -> Result<Seq<u8>, Seq<char>>;

/// `png::Info::with_size` with the colour type, bit depth and ICC
/// profile set, `Encoder::with_info` over a `Vec`, `set_compression`
/// (`Fastest`, `Fast`, `Balanced`, `High` for levels 0 to 3),
/// `set_filter(Adaptive)`, `write_header`, `write_image_data` and
/// `finish`. The contract names the bytes written, or the message.
#[verifier::external_body]
fn png_write(width: u32, height: u32, color: u8, depth: u8, icc: Option<&[u8]>, level: u8, data: &[u8]) -> (r: Result<Vec<u8>, String>)
    requires
        color == 0 || color == 2 || color == 4 || color == 6,
        depth == 8 || depth == 16,
        level <= 3,
    ensures
        match r {
            Ok(v) => png_encoded(width, height, color, depth, match icc { Some(b) => Some(b@), None => None }, level, data@) == Ok::<Seq<u8>, Seq<char>>(v@),
            Err(m) => png_encoded(width, height, color, depth, match icc { Some(b) => Some(b@), None => None }, level, data@) == Err::<Seq<u8>, Seq<char>>(m@),
        },
{
    let mut info = Info::with_size(width, height);
    info.color_type = png::ColorType::from_u8(color).unwrap();
    info.bit_depth = BitDepth::from_u8(depth).unwrap();
    info.icc_profile = icc.map(Cow::Borrowed);
    let mut out = Vec::new();
    let mut encoder = Encoder::with_info(&mut out, info).map_err(|e| e.to_string())?;
    encoder.set_compression(match level { 0 => Compression::Fastest, 1 => Compression::Fast, 2 => Compression::Balanced, _ => Compression::High });
    encoder.set_filter(Filter::Adaptive);
    encoder.write_header().and_then(|mut w| { w.write_image_data(data)?; w.finish() }).map_err(|e| e.to_string())?;
    Ok(out)
}

/// What `png` makes of samples laid out as the image says.
pub open spec fn png_written(r: Result<Vec<u8>, Error>, img: ImageView, depth: u8, level: u8, data: Seq<u8>) -> bool {
    match png_encoded(img.width, img.height, png_color_code(img.color), depth, img.meta.icc, level, data) {
        Ok(b) => r matches Ok(v) && v@ == b,
        Err(m) => r matches Err(Error::Codec(s)) && s@ == m,
    }
}

/// What encoding an image to PNG gives: the first `png:` option refused
/// by name, float samples refused; then the `png` crate's output for
/// 8-bit samples as they are or 16-bit ones split big-endian, at the
/// compression the effort picks.
pub open spec fn png_encode_ok(r: Result<Vec<u8>, Error>, img: ImageView, effort: u8, keys: Seq<Seq<char>>) -> bool {
    match first_png_key(keys) {
        Some(k) => r matches Err(Error::InvalidParams(m)) && m@ == "unknown png option `"@ + k + "`"@,
        None => match img.samples {
            SampleData::F32(_) => r matches Err(Error::Unsupported { format, what }) && format == Format::Png
                && what@ == "float (HDR) samples"@,
            SampleData::U8(v) => png_written(r, img, 8, png_level(effort), v),
            SampleData::U16(v) => png_written(r, img, 16, png_level(effort), be16_bytes(v)),
        },
    }
}

/// 16-bit samples split into bytes, high byte first.
pub fn split_be16(v: &[u16]) -> (r: Vec<u8>)
    ensures
        r@ == be16_bytes(v@),
{
    let mut out: Vec<u8> = Vec::new();
    let mut i: usize = 0;
    while i < v.len()
        invariant
            i <= v@.len(),
            out@.len() == 2 * i,
            forall|j: int| 0 <= j < 2 * i ==> #[trigger] out@[j] == be16_bytes(v@)[j],
        decreases v@.len() - i,
    {
        let s = v[i];
        out.push((s / 256) as u8);
        out.push((s % 256) as u8);
        proof {
            assert forall|j: int| 2 * i <= j < 2 * i + 2 implies #[trigger] out@[j] == be16_bytes(v@)[j] by {
                vstd::arithmetic::div_mod::lemma_fundamental_div_mod_converse(j, 2, i as int, j - 2 * i);
            }
        }
        i = i + 1;
    }
    assert(out@ =~= be16_bytes(v@));
    out
}

/// The first `png:` option among the keys, its prefix taken off.
fn find_png_key(keys: &[String]) -> (r: Option<String>)
    ensures
        match first_png_key(key_views(keys@)) {
            Some(k) => r matches Some(s) && s@ == k,
            None => r is None,
        },
{
    let mut i: usize = 0;
    assert(key_views(keys@).skip(0) =~= key_views(keys@));
    while i < keys.len()
        invariant
            i <= keys@.len(),
            first_png_key(key_views(keys@)) == first_png_key(key_views(keys@).skip(i as int)),
        decreases keys@.len() - i,
    {
        let ghost rest = key_views(keys@).skip(i as int);
        assert(rest[0] == keys@[i as int]@);
        assert(rest.drop_first() =~= key_views(keys@).skip(i + 1));
        let cs = chars_of(keys[i].as_str());
        if cs.len() >= 4 && cs[0] == 'p' && cs[1] == 'n' && cs[2] == 'g' && cs[3] == ':' {
            let k = string_of(vstd::slice::slice_subrange(cs.as_slice(), 4, cs.len()));
            assert(k@ =~= rest[0].skip(4));
            return Some(k);
        }
        i = i + 1;
    }
    assert(key_views(keys@).skip(i as int).len() == 0);
    None
}

/// PNG encoder: lossless, 8 or 16 bit, any channel layout. Fast, not
/// small.
#[derive(Debug, Clone, Copy, Default)]
pub struct PngEncoder;

impl PngEncoder {
    /// What this encoder is.
    pub fn caps(&self) -> (r: EncoderCaps)
        ensures
            r.format == Format::Png && !r.lossy && r.lossless && r.alpha && !r.animation && !r.hdr
                && r.effort_min == 0 && r.effort_max == 10 && r.tier == Tier::Portable && r.name@ == "png"@
                && r.bit_depth@ == seq![8u8, 16u8] && r.options@.len() == 0,
    {
        let depths: &'static [u8] = &[8, 16];
        let opts: &'static [CodecOption] = &[];
        EncoderCaps {
            format: Format::Png,
            name: "png",
            lossy: false,
            lossless: true,
            alpha: true,
            animation: false,
            bit_depth: depths,
            hdr: false,
            effort_min: 0,
            effort_max: 10,
            exif: false,
            xmp: false,
            tier: Tier::Portable,
            options: opts,
        }
    }

    /// Encodes losslessly at the effort's compression. `codec_keys` are
    /// the backend-specific option keys (`codec:key`) in their order; any
    /// for `png` is refused. The quality target has been resolved before,
    /// and plays no part: PNG is lossless whatever it says.
    ///
    /// # Errors
    /// `InvalidParams` for a `png:` option, `Unsupported` for float
    /// samples, the crate's message as `Codec`.
    pub fn encode(&self, img: &Image, effort: u8, codec_keys: &[String]) -> (r: Result<Vec<u8>, Error>)
        ensures
            png_encode_ok(r, img@, effort, key_views(codec_keys@)),
    {
        match find_png_key(codec_keys) {
            Some(k) => {
                let mut m = String::new();
                push_str(&mut m, "unknown png option `");
                push_str(&mut m, k.as_str());
                push_str(&mut m, "`");
                return Err(Error::InvalidParams(m));
            },
            None => {},
        }
        let color: u8 = match img.color() {
            ColorType::Gray => 0,
            ColorType::GrayAlpha => 4,
            ColorType::Rgb => 2,
            ColorType::Rgba => 6,
        };
        let level: u8 = if effort == 0 { 0 } else if effort <= 3 { 1 } else if effort <= 7 { 2 } else { 3 };
        let r = match img.samples() {
            Samples::U8(v) => png_write(img.width(), img.height(), color, 8, img.icc(), level, v.as_slice()),
            Samples::U16(v) => {
                let bytes = split_be16(v.as_slice());
                png_write(img.width(), img.height(), color, 16, img.icc(), level, bytes.as_slice())
            },
            Samples::F32(_) => {
                let mut m = String::new();
                push_str(&mut m, "float (HDR) samples");
                return Err(Error::Unsupported { format: Format::Png, what: m });
            },
        };
        match r {
            Ok(v) => Ok(v),
            Err(m) => Err(Error::Codec(m)),
        }
    }
}

} // verus!
