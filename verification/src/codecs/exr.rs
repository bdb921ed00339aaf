//! OpenEXR sniffing and header reading: the magic number, and what the
//! first layer of the `exr` crate's metadata says about the size and the
//! channels.

use vstd::prelude::*;
use exr::prelude::Sample;
use exr::prelude::traits::{ReadChannels, ReadLayers, ReadSpecificChannel};
use crate::error::Error;
use crate::format::{Format, FormatInfo, DecoderCaps, Tier};
use crate::image::{ColorType, Image, SampleData, Samples, new_result_ok, size_text};
use crate::params::DecodeOpts;
use crate::text::push_str;

verus! {

/// The OpenEXR magic number, `76 2f 31 01`.
pub open spec fn spec_is_exr(b: Seq<u8>) -> bool {
    b.len() >= 4 && b[0] == 0x76 && b[1] == 0x2f && b[2] == 0x31 && b[3] == 0x01
}

/// What `exr` reads of the first layer's header: whether it is deep data,
/// its size, and its channel names in order; `Ok(None)` for a file with
/// no layer, `Err` with the crate's message when the metadata does not
/// read.
pub uninterp spec fn exr_first_layer(bytes: Seq<u8>) -> Result<Option<(bool, usize, usize, Seq<Seq<char>>)>, Seq<char>>;

/// The names of a list of strings, as text.
pub open spec fn names_view(v: Seq<String>) -> Seq<Seq<char>> {
    v.map_values(|s: String| s@)
}

/// `exr::meta::MetaData::read_from_buffered` over the bytes, not pedantic,
/// then the first header's `deep` flag, `layer_size` and channel names.
/// The contract names that result and says nothing more of it.
#[verifier::external_body]
fn first_layer(bytes: &[u8]) -> (r: Result<Option<(bool, usize, usize, Vec<String>)>, String>)
    ensures
        match r {
            Ok(Some((d, w, h, names))) => exr_first_layer(bytes@) == Ok::<Option<(bool, usize, usize, Seq<Seq<char>>)>, Seq<char>>(
                Some((d, w, h, names_view(names@))),
            ),
            Ok(None) => exr_first_layer(bytes@) == Ok::<Option<(bool, usize, usize, Seq<Seq<char>>)>, Seq<char>>(None),
            Err(m) => exr_first_layer(bytes@) == Err::<Option<(bool, usize, usize, Seq<Seq<char>>)>, Seq<char>>(m@),
        },
{
    let meta = exr::meta::MetaData::read_from_buffered(std::io::Cursor::new(bytes), false).map_err(|e| e.to_string())?;
    Ok(meta.headers.first().map(|h| (h.deep, h.layer_size.0, h.layer_size.1, h.channels.list.iter().map(|c| c.name.to_string()).collect())))
}

/// Which channels the first layer has, and so what the image becomes.
#[derive(Debug, Clone, Copy, PartialEq, Eq, Structural)]
pub enum ExrChannels {
    /// `R`, `G` and `B`, with `A` when there is one.
    Rgb {
        /// An `A` channel is present.
        alpha: bool,
    },
    /// `Y`, with `A` when there is one.
    Gray {
        /// An `A` channel is present.
        alpha: bool,
    },
}

/// The channel names, comma separated.
pub open spec fn joined_names(names: Seq<Seq<char>>) -> Seq<char>
    decreases names.len(),
{
    if names.len() == 0 {
        Seq::empty()
    } else if names.len() == 1 {
        names[0]
    } else {
        joined_names(names.drop_last()) + ", "@ + names.last()
    }
}

/// The size and channel layout of the first layer, or why it cannot be
/// read.
pub open spec fn spec_exr_header(layer: Result<Option<(bool, usize, usize, Seq<Seq<char>>)>, Seq<char>>) -> Result<((u32, u32), ExrChannels), Seq<char>> {
    match layer {
        Err(m) => Err(m),
        Ok(None) => Err("OpenEXR file has no layer"@),
        Ok(Some((deep, w, h, names))) => if deep {
            Err("deep OpenEXR data is not supported"@)
        } else if w > u32::MAX || h > u32::MAX {
            Err("OpenEXR layer size does not fit in 32 bits"@)
        } else if names.contains("R"@) && names.contains("G"@) && names.contains("B"@) {
            Ok(((w as u32, h as u32), ExrChannels::Rgb { alpha: names.contains("A"@) }))
        } else if names.contains("Y"@) {
            Ok(((w as u32, h as u32), ExrChannels::Gray { alpha: names.contains("A"@) }))
        } else {
            Err("OpenEXR channels "@ + joined_names(names) + " are not supported; RGB, RGBA, Y and YA are"@)
        },
    }
}

/// Whether a channel of the given name is listed.
fn has(names: &Vec<String>, name: &str) -> (r: bool)
    ensures
        r == names_view(names@).contains(name@),
{
    let mut i: usize = 0;
    while i < names.len()
        invariant
            i <= names@.len(),
            forall|j: int| 0 <= j < i ==> names@[j]@ != name@,
        decreases names@.len() - i,
    {
        if crate::text::str_eq(names[i].as_str(), name) {
            assert(names_view(names@)[i as int] == name@);
            return true;
        }
        i = i + 1;
    }
    assert forall|j: int| 0 <= j < names_view(names@).len() implies names_view(names@)[j] != name@ by {
        assert(names_view(names@)[j] == names@[j]@);
    }
    false
}

/// Appends the channel names, comma separated.
fn push_names(s: &mut String, names: &Vec<String>)
    ensures
        final(s)@ == old(s)@ + joined_names(names_view(names@)),
{
    let ghost start = s@;
    let ghost all = names_view(names@);
    let mut i: usize = 0;
    while i < names.len()
        invariant
            all == names_view(names@),
            i <= names@.len(),
            s@ == start + joined_names(all.subrange(0, i as int)),
        decreases names@.len() - i,
    {
        if i > 0 {
            push_str(s, ", ");
        }
        push_str(s, names[i].as_str());
        proof {
            let sub = all.subrange(0, i + 1);
            assert(sub.drop_last() =~= all.subrange(0, i as int));
            assert(sub.last() == names@[i as int]@);
            if i == 0 {
                assert(joined_names(all.subrange(0, 0)) =~= Seq::<char>::empty());
            }
        }
        i = i + 1;
        assert(s@ =~= start + joined_names(all.subrange(0, i as int)));
    }
    assert(all.subrange(0, names@.len() as int) =~= all);
}

/// The first layer's size and channel layout, without reading pixels.
pub fn exr_header(bytes: &[u8]) -> (r: Result<((u32, u32), ExrChannels), Error>)
    ensures
        match spec_exr_header(exr_first_layer(bytes@)) {
            Ok(v) => r == Ok::<((u32, u32), ExrChannels), Error>(v),
            Err(m) => r matches Err(Error::Codec(s)) && s@ == m,
        },
{
    let mut msg = String::new();
    match first_layer(bytes) {
        Err(m) => Err(Error::Codec(m)),
        Ok(None) => {
            push_str(&mut msg, "OpenEXR file has no layer");
            Err(Error::Codec(msg))
        },
        Ok(Some((deep, w, h, names))) => {
            if deep {
                push_str(&mut msg, "deep OpenEXR data is not supported");
                return Err(Error::Codec(msg));
            }
            if w > 0xffff_ffff || h > 0xffff_ffff {
                push_str(&mut msg, "OpenEXR layer size does not fit in 32 bits");
                return Err(Error::Codec(msg));
            }
            let size = (w as u32, h as u32);
            if has(&names, "R") && has(&names, "G") && has(&names, "B") {
                Ok((size, ExrChannels::Rgb { alpha: has(&names, "A") }))
            } else if has(&names, "Y") {
                Ok((size, ExrChannels::Gray { alpha: has(&names, "A") }))
            } else {
                push_str(&mut msg, "OpenEXR channels ");
                push_names(&mut msg, &names);
                push_str(&mut msg, " are not supported; RGB, RGBA, Y and YA are");
                Err(Error::Codec(msg))
            }
        },
    }
}

/// Zeroed storage for `len` float samples, as bit patterns.
pub fn exr_storage(len: usize) -> (r: Vec<u32>)
    ensures
        r@.len() == len,
        forall|i: int| 0 <= i < len ==> r@[i] == 0,
{
    let mut v: Vec<u32> = Vec::new();
    let mut i: usize = 0;
    while i < len
        invariant
            i <= len,
            v@.len() == i,
            forall|j: int| 0 <= j < i ==> v@[j] == 0,
        decreases len - i,
    {
        v.push(0);
        i = i + 1;
    }
    v
}

/// Where pixel `(x, y)` of a `width`-wide image with `ch` channels starts
/// in its interleaved samples, when its `ch` samples lie inside `len`.
pub open spec fn pixel_start(width: usize, ch: usize, x: usize, y: usize, len: nat) -> Option<int> {
    let i = (y * width + x) * ch;
    if x < width && i + ch <= len { Some(i) } else { None }
}

proof fn lemma_start_bound(y: int, w: int, x: int, ch: int)
    by (nonlinear_arith)
    requires
        y >= 0,
        w >= 0,
        x >= 0,
        ch >= 1,
    ensures
        (y * w + x) * ch >= y * w + x,
{
}

/// Stores the samples of pixel `(x, y)`: `values[k]` into channel `k` for
/// each of the `ch` channels, at most four. A pixel outside the width or
/// the buffer is left alone.
pub fn put_pixel(pixels: &mut Vec<u32>, width: usize, ch: usize, x: usize, y: usize, values: [u32; 4])
    requires
        1 <= ch <= 4,
    ensures
        final(pixels)@.len() == old(pixels)@.len(),
        match pixel_start(width, ch, x, y, old(pixels)@.len()) {
            Some(i) => forall|j: int| 0 <= j < old(pixels)@.len() ==> final(pixels)@[j] == if i <= j < i + ch {
                values@[j - i]
            } else {
                old(pixels)@[j]
            },
            None => final(pixels)@ == old(pixels)@,
        },
{
    if x >= width {
        return;
    }
    let n = pixels.len();
    proof { lemma_start_bound(y as int, width as int, x as int, ch as int); }
    let row = match y.checked_mul(width) {
        Some(r) => r,
        None => return,
    };
    let at = match row.checked_add(x) {
        Some(a) => a,
        None => return,
    };
    let i = match at.checked_mul(ch) {
        Some(i) => i,
        None => return,
    };
    if i > n || n - i < ch {
        return;
    }
    let mut k: usize = 0;
    while k < ch
        invariant
            ch <= 4,
            i + ch <= pixels@.len(),
            i == (y * width + x) * ch,
            k <= ch,
            pixels@.len() == old(pixels)@.len(),
            pixels@.len() == n,
            forall|j: int| 0 <= j < pixels@.len() ==> pixels@[j] == if i <= j < i + k {
                values@[j - i]
            } else {
                old(pixels)@[j]
            },
        decreases ch - k,
    {
        pixels.set(i + k, values[k]);
        k = k + 1;
    }
}

/// What `exr` reads from the first layer holding `R`, `G` and `B` into
/// storage of `width * height * ch` zeroed samples, each pixel's red,
/// green, blue and alpha (1.0 when there is no `A`) stored by
/// [`put_pixel`] as `f32` bit patterns; or the crate's message.
pub uninterp spec fn exr_rgb_pixels(bytes: Seq<u8>, width: usize, height: usize, ch: usize) -> Result<Seq<u32>, Seq<char>>;

/// The same for the first layer holding `Y`, each pixel's luma and alpha
/// (1.0 when there is no `A`).
pub uninterp spec fn exr_gray_pixels(bytes: Seq<u8>, width: usize, height: usize, ch: usize) -> Result<Seq<u32>, Seq<char>>;

/// `exr::prelude::read()` with no deep data, the largest resolution
/// level, `rgba_channels` read as `exr` samples and widened to 32-bit
/// floats, the first valid layer, all attributes, not parallel, from the
/// bytes. Storage of `len` (which is `width * height * ch`) zeroed samples
/// comes from [`exr_storage`], and each pixel goes through [`put_pixel`],
/// which leaves storage alone for a pixel outside it, so nothing panics. The contract names the pixels that
/// come back, or the crate's message.
#[verifier::external_body]
fn rgb_pixels(bytes: &[u8], width: usize, height: usize, ch: usize, len: usize) -> (r: Result<Vec<u32>, String>)
    requires
        1 <= ch <= 4,
        len == width * height * ch,
    ensures
        match r {
            Ok(v) => exr_rgb_pixels(bytes@, width, height, ch) == Ok::<Seq<u32>, Seq<char>>(v@),
            Err(m) => exr_rgb_pixels(bytes@, width, height, ch) == Err::<Seq<u32>, Seq<char>>(m@),
        },
{
    exr::prelude::read().no_deep_data().largest_resolution_level()
        .rgba_channels(move |_, _| exr_storage(len), move |p: &mut Vec<u32>, at, (r, g, b, a): (Sample, Sample, Sample, Sample)| {
            put_pixel(p, width, ch, at.0, at.1, [r.to_f32().to_bits(), g.to_f32().to_bits(), b.to_f32().to_bits(), a.to_f32().to_bits()])
        })
        .first_valid_layer().all_attributes().non_parallel()
        .from_buffered(std::io::Cursor::new(bytes)).map(|img| img.layer_data.channel_data.pixels).map_err(|e| e.to_string())
}

/// `exr::prelude::read()` with no deep data, the largest resolution
/// level, specific channels `Y` required and `A` optional with the
/// integer sample 1 (which reads as 1.0), the
/// first valid layer, all attributes, not parallel, from the bytes.
/// Storage of `len` (which is `width * height * ch`) zeroed samples comes
/// from [`exr_storage`], and each pixel goes through [`put_pixel`]. The
/// contract names the pixels that come back, or the
/// crate's message.
#[verifier::external_body]
fn gray_pixels(bytes: &[u8], width: usize, height: usize, ch: usize, len: usize) -> (r: Result<Vec<u32>, String>)
    requires
        1 <= ch <= 4,
        len == width * height * ch,
    ensures
        match r {
            Ok(v) => exr_gray_pixels(bytes@, width, height, ch) == Ok::<Seq<u32>, Seq<char>>(v@),
            Err(m) => exr_gray_pixels(bytes@, width, height, ch) == Err::<Seq<u32>, Seq<char>>(m@),
        },
{
    exr::prelude::read().no_deep_data().largest_resolution_level().specific_channels()
        .required("Y").optional("A", Sample::u32(1))
        .collect_pixels(move |_, _| exr_storage(len), move |p: &mut Vec<u32>, at, (y, a): (Sample, Sample)| {
            put_pixel(p, width, ch, at.0, at.1, [y.to_f32().to_bits(), a.to_f32().to_bits(), 0, 0])
        })
        .first_valid_layer().all_attributes().non_parallel()
        .from_buffered(std::io::Cursor::new(bytes)).map(|img| img.layer_data.channel_data.pixels).map_err(|e| e.to_string())
}

/// The layout an OpenEXR channel set becomes.
pub open spec fn exr_color(c: ExrChannels) -> ColorType {
    match c {
        ExrChannels::Rgb { alpha } => if alpha { ColorType::Rgba } else { ColorType::Rgb },
        ExrChannels::Gray { alpha } => if alpha { ColorType::GrayAlpha } else { ColorType::Gray },
    }
}

/// Samples per pixel for a channel set.
pub open spec fn exr_ch(c: ExrChannels) -> usize {
    match c {
        ExrChannels::Rgb { alpha } => if alpha { 4usize } else { 3usize },
        ExrChannels::Gray { alpha } => if alpha { 2usize } else { 1usize },
    }
}

/// What the pixel read gives for a channel set.
pub open spec fn exr_pixels(bytes: Seq<u8>, c: ExrChannels, w: usize, h: usize) -> Result<Seq<u32>, Seq<char>> {
    match c {
        ExrChannels::Rgb { .. } => exr_rgb_pixels(bytes, w, h, exr_ch(c)),
        ExrChannels::Gray { .. } => exr_gray_pixels(bytes, w, h, exr_ch(c)),
    }
}

/// What decoding OpenEXR bytes gives: the header's refusal, the pixel
/// limit's, a size that does not fit in memory, the crate's message, or
/// the image of the pixels read.
pub open spec fn exr_decode_ok(r: Result<Image, Error>, bytes: Seq<u8>, opts: DecodeOpts) -> bool {
    match spec_exr_header(exr_first_layer(bytes)) {
        Err(m) => r matches Err(Error::Codec(s)) && s@ == m,
        Ok(((w, h), c)) => if w * h > opts.max_pixels {
            r matches Err(Error::TooLarge { pixels, limit }) && pixels == w * h && limit == opts.max_pixels
        } else if w * h * exr_ch(c) > usize::MAX {
            r matches Err(Error::InvalidInput(m)) && m@ == size_text(w, h) + " does not fit in memory"@
        } else {
            match exr_pixels(bytes, c, w as usize, h as usize) {
                Err(m) => r matches Err(Error::Codec(s)) && s@ == m,
                Ok(px) => new_result_ok(r, w, h, exr_color(c), SampleData::F32(px)),
            }
        },
    }
}

/// OpenEXR decoder.
#[derive(Debug, Clone, Copy, Default)]
pub struct ExrDecoder;

impl ExrDecoder {
    /// What this decoder is.
    pub fn caps(&self) -> (r: DecoderCaps)
        ensures
            r.format == Format::Exr && !r.animation && r.tier == Tier::Portable,
    {
        DecoderCaps { format: Format::Exr, name: "exr", animation: false, tier: Tier::Portable }
    }

    /// The magic-number check.
    pub fn probe(&self, bytes: &[u8]) -> (r: Option<FormatInfo>)
        ensures
            r == if spec_is_exr(bytes@) { Some(FormatInfo { format: Format::Exr, animated: false }) } else {
                None
            },
    {
        if bytes.len() >= 4 && bytes[0] == 0x76 && bytes[1] == 0x2f && bytes[2] == 0x31 && bytes[3] == 0x01 {
            Some(FormatInfo { format: Format::Exr, animated: false })
        } else {
            None
        }
    }

    /// The first layer's size.
    pub fn dimensions(&self, bytes: &[u8]) -> (r: Option<(u32, u32)>)
        ensures
            r == if spec_is_exr(bytes@) {
                match spec_exr_header(exr_first_layer(bytes@)) {
                    Ok((size, _)) => Some(size),
                    Err(_) => None,
                }
            } else {
                None
            },
    {
        if self.probe(bytes).is_none() {
            return None;
        }
        match exr_header(bytes) {
            Ok((size, _)) => Some(size),
            Err(_) => None,
        }
    }

    /// Decodes the first layer to linear float samples: `R`, `G`, `B`
    /// (with `A`) as RGB(A), `Y` (with `A`) as gray, alpha as stored.
    ///
    /// # Errors
    /// The header's and the crate's messages as `Codec`, `TooLarge` above
    /// the pixel limit.
    pub fn decode(&self, bytes: &[u8], opts: &DecodeOpts) -> (r: Result<Image, Error>)
        ensures
            exr_decode_ok(r, bytes@, *opts),
    {
        let ((width, height), channels) = match exr_header(bytes) {
            Ok(v) => v,
            Err(e) => return Err(e),
        };
        match opts.check_pixels(width, height) {
            Ok(()) => {},
            Err(e) => return Err(e),
        }
        let (color, ch): (ColorType, usize) = match channels {
            ExrChannels::Rgb { alpha } => if alpha { (ColorType::Rgba, 4) } else { (ColorType::Rgb, 3) },
            ExrChannels::Gray { alpha } => if alpha { (ColorType::GrayAlpha, 2) } else { (ColorType::Gray, 1) },
        };
        let (w, h) = (width as usize, height as usize);
        let len = match w.checked_mul(h) {
            Some(px) => px.checked_mul(ch),
            None => None,
        };
        let len = match len {
            Some(n) => n,
            None => {
                proof {
                    assert(w * h * ch >= w * h) by (nonlinear_arith) requires ch >= 1;
                }
                let mut m = String::new();
                crate::image::push_size(&mut m, width, height);
                push_str(&mut m, " does not fit in memory");
                return Err(Error::InvalidInput(m));
            },
        };
        let pixels = match channels {
            ExrChannels::Rgb { .. } => rgb_pixels(bytes, w, h, ch, len),
            ExrChannels::Gray { .. } => gray_pixels(bytes, w, h, ch, len),
        };
        match pixels {
            Ok(v) => Image::new(width, height, color, Samples::F32(v)),
            Err(m) => Err(Error::Codec(m)),
        }
    }
}

} // verus!
