//! What every HEIC backend shares once its binding has decoded a frame:
//! the channel layout, straight alpha, the container's orientation where
//! the binding left it to us, and the ICC profile from the container, so
//! every backend turns its samples into an image the same way.

use vstd::prelude::*;
use vstd::arithmetic::div_mod::lemma_fundamental_div_mod_converse;
use crate::error::Error;
use crate::codecs::heif::{Header, header, spec_header, header_is};
use crate::codecs::avif::{unpremultiplied, Sample};
use crate::image::{ColorType, Image, ImageView, Samples, SampleData, Orientation, MetaView, spec_channels,
    spec_has_alpha, spec_apply, blob_view, empty_meta, data_len};
use crate::text::{push_str, push_decimal, decimal};

verus! {

/// What a binding hands back, before the shared steps.
pub struct Frame {
    /// Width in pixels.
    pub width: u32,
    /// Height in pixels.
    pub height: u32,
    /// Samples per pixel.
    pub channels: u8,
    /// Interleaved samples.
    pub samples: Samples,
    /// Whether the colour channels are premultiplied by alpha.
    pub premultiplied: bool,
    /// Whether the binding already applied the container's rotation and
    /// mirroring.
    pub transformed: bool,
}

/// Sample `i` of a `ch`-channel buffer whose last channel is alpha, with
/// the premultiplication undone where alpha is neither zero nor full.
pub open spec fn straight_at<T: Sample>(v: Seq<T>, ch: int, i: int) -> int {
    let p = i / ch;
    let k = i % ch;
    let a = v[p * ch + ch - 1].val();
    if k == ch - 1 || !(0 < a < T::max_val()) { v[i].val() } else { unpremultiplied(v[i].val(), a, T::max_val()) }
}

/// Whether `out` is `v` with the alpha made straight.
pub open spec fn straightened<T: Sample>(v: Seq<T>, out: Seq<T>, ch: int) -> bool {
    out.len() == v.len() && forall|i: int| 0 <= i < v.len() ==> (#[trigger] out[i]).val() == straight_at(v, ch, i)
}

/// Samples with the alpha made straight; float samples as they are.
pub open spec fn data_straightened(d: SampleData, out: SampleData, ch: int) -> bool {
    match (d, out) {
        (SampleData::U8(v), SampleData::U8(o)) => straightened(v, o, ch),
        (SampleData::U16(v), SampleData::U16(o)) => straightened(v, o, ch),
        (SampleData::F32(v), SampleData::F32(o)) => o == v,
        _ => false,
    }
}

fn straighten<T: Sample>(v: &mut Vec<T>, ch: usize)
    requires
        ch >= 2,
        (old(v)@.len() as int) % (ch as int) == 0,
    ensures
        straightened(old(v)@, final(v)@, ch as int),
{
    let n = v.len();
    let ghost orig = v@;
    let max = T::max_value();
    let count = n / ch;
    proof {
        assert(count * ch == n) by (nonlinear_arith)
            requires count == (n as int) / (ch as int), (n as int) % (ch as int) == 0, ch >= 2;
    }
    let mut p: usize = 0;
    while p < count
        invariant
            n == v@.len(),
            ch >= 2,
            max == T::max_val(),
            1 <= max <= 0xFFFF,
            count * ch == n,
            orig.len() == n,
            orig == old(v)@,
            p <= count,
            forall|i: int| 0 <= i < p * ch ==> (#[trigger] v@[i]).val() == straight_at(orig, ch as int, i),
            forall|i: int| p * ch <= i < n ==> #[trigger] v@[i] == orig[i],
        decreases count - p,
    {
        proof {
            assert(p * ch + ch <= count * ch) by (nonlinear_arith)
                requires p < count;
        }
        let base = p * ch;
        let a = v[base + ch - 1].value();
        let mut k: usize = 0;
        while k < ch - 1
            invariant
                n == v@.len(),
                ch >= 2,
                max == T::max_val(),
                1 <= max <= 0xFFFF,
                count * ch == n,
                orig.len() == n,
                p < count,
                base == p * ch,
                base + ch <= n,
                a == orig[base + ch - 1].val(),
                k <= ch - 1,
                forall|i: int| 0 <= i < base + k ==> (#[trigger] v@[i]).val() == straight_at(orig, ch as int, i),
                forall|i: int| base + k <= i < n ==> #[trigger] v@[i] == orig[i],
            decreases ch - 1 - k,
        {
            proof {
                lemma_fundamental_div_mod_converse(base + k, ch as int, p as int, k as int);
            }
            if a > 0 && a < max {
                let c = v[base + k].value();
                proof {
                    assert(c * max <= 0xFFFF * 0xFFFF) by (nonlinear_arith)
                        requires c <= max, max <= 0xFFFF;
                }
                let q = (c * max + a / 2) / a;
                v.set(base + k, T::from_value(if q < max { q } else { max }));
            }
            k = k + 1;
        }
        proof {
            lemma_fundamental_div_mod_converse(base + ch - 1, ch as int, p as int, ch - 1);
        }
        p = p + 1;
        assert((p - 1) * ch + ch == p * ch) by (nonlinear_arith);
    }
}

/// 8-bit samples with the alpha made straight.
pub open spec fn straight_u8(v: Seq<u8>, ch: int) -> Seq<u8> {
    Seq::new(v.len(), |i: int| straight_at(v, ch, i) as u8)
}

/// 16-bit samples with the alpha made straight.
pub open spec fn straight_u16(v: Seq<u16>, ch: int) -> Seq<u16> {
    Seq::new(v.len(), |i: int| straight_at(v, ch, i) as u16)
}

/// Samples with the alpha made straight; float samples as they are.
pub open spec fn straight_data(d: SampleData, ch: int) -> SampleData {
    match d {
        SampleData::U8(v) => SampleData::U8(straight_u8(v, ch)),
        SampleData::U16(v) => SampleData::U16(straight_u16(v, ch)),
        SampleData::F32(v) => SampleData::F32(v),
    }
}

proof fn lemma_straight_data(d: SampleData, out: SampleData, ch: int)
    requires
        data_straightened(d, out, ch),
    ensures
        out == straight_data(d, ch),
{
    match (d, out) {
        (SampleData::U8(v), SampleData::U8(o)) => {
            assert forall|i: int| 0 <= i < v.len() implies #[trigger] o[i] == straight_u8(v, ch)[i] by {
                assert(o[i].val() == straight_at(v, ch, i));
            }
            assert(o =~= straight_u8(v, ch));
        },
        (SampleData::U16(v), SampleData::U16(o)) => {
            assert forall|i: int| 0 <= i < v.len() implies #[trigger] o[i] == straight_u16(v, ch)[i] by {
                assert(o[i].val() == straight_at(v, ch, i));
            }
            assert(o =~= straight_u16(v, ch));
        },
        _ => {},
    }
}

/// Undoes premultiplied alpha so the colour channels mean the same thing
/// as in every other decoder's output. Only meaningful for a layout with
/// alpha; float samples are left as they are.
pub fn unpremultiply(image: Image) -> (r: Image)
    requires
        spec_has_alpha(image@.color),
    ensures
        r@ == (ImageView { samples: straight_data(image@.samples, spec_channels(image@.color) as int), ..image@ }),
{
    let ghost before = image@;
    let (width, height, color, samples, meta) = image.into_parts();
    let ch = color.channels();
    let ghost len = data_len(samples@);
    proof {
        assert(len == width * height * ch);
        assert((len as int) % (ch as int) == 0) by (nonlinear_arith)
            requires len == width * height * ch, ch >= 1;
    }
    let samples = match samples {
        Samples::U8(mut v) => {
            straighten(&mut v, ch);
            Samples::U8(v)
        },
        Samples::U16(mut v) => {
            straighten(&mut v, ch);
            Samples::U16(v)
        },
        Samples::F32(v) => Samples::F32(v),
    };
    proof {
        lemma_straight_data(before.samples, samples@, ch as int);
    }
    Image::assemble(width, height, color, samples, meta)
}

/// The layout a binding's channel count stands for.
pub open spec fn frame_color(channels: u8) -> Option<ColorType> {
    if channels == 1 {
        Some(ColorType::Gray)
    } else if channels == 2 {
        Some(ColorType::GrayAlpha)
    } else if channels == 3 {
        Some(ColorType::Rgb)
    } else if channels == 4 {
        Some(ColorType::Rgba)
    } else {
        None
    }
}

/// The image a frame becomes once built: alpha made straight where the
/// binding premultiplied it, the container's orientation applied where the
/// binding did not, the container's ICC profile attached.
pub open spec fn finished(img: ImageView, premultiplied: bool, transformed: bool, orientation: Orientation, icc: Option<Seq<u8>>) -> ImageView {
    let straight = if premultiplied && spec_has_alpha(img.color) {
        ImageView { samples: straight_data(img.samples, spec_channels(img.color) as int), ..img }
    } else {
        img
    };
    let upright = if transformed { straight } else { spec_apply(straight, orientation) };
    ImageView { meta: MetaView { icc, ..upright.meta }, ..upright }
}

/// Whether `r` is what the shared tail makes of a frame.
pub open spec fn finish_result_ok(r: Result<Image, Error>, width: u32, height: u32, channels: u8, samples: SampleData, premultiplied: bool, transformed: bool, orientation: Orientation, icc: Option<Seq<u8>>) -> bool {
    match frame_color(channels) {
        None => r matches Err(Error::Codec(m)) && m@ == "HEIC decoder returned "@ + decimal(channels as nat) + " channels"@,
        Some(color) => match crate::image::new_refusal(width, height, color, crate::image::data_len(samples)) {
            Some(msg) => r matches Err(Error::InvalidInput(m)) && m@ == msg,
            None => r matches Ok(img) && img@ == finished(
                ImageView { width, height, color, samples, meta: empty_meta() },
                premultiplied,
                transformed,
                orientation,
                icc,
            ),
        },
    }
}

/// A copy of an optional blob.
fn copy_icc(b: &Option<Vec<u8>>) -> (r: Option<Vec<u8>>)
    ensures
        blob_view(r) == blob_view(*b),
{
    match b {
        Some(v) => Some(vstd::slice::slice_to_vec(v.as_slice())),
        None => None,
    }
}

/// The shared tail of every HEIC decode: layout, straight alpha, the
/// container's orientation where the binding left it to us, the ICC
/// profile from the container.
pub fn finish(frame: Frame, header: &Header) -> (r: Result<Image, Error>)
    ensures
        finish_result_ok(r, frame.width, frame.height, frame.channels, frame.samples@, frame.premultiplied,
            frame.transformed, header.orientation, blob_view(header.icc)),
{
    let color = if frame.channels == 1 {
        ColorType::Gray
    } else if frame.channels == 2 {
        ColorType::GrayAlpha
    } else if frame.channels == 3 {
        ColorType::Rgb
    } else if frame.channels == 4 {
        ColorType::Rgba
    } else {
        let mut m = String::new();
        push_str(&mut m, "HEIC decoder returned ");
        push_decimal(&mut m, frame.channels as u64);
        push_str(&mut m, " channels");
        return Err(Error::Codec(m));
    };
    let image = match Image::new(frame.width, frame.height, color, frame.samples) {
        Ok(img) => img,
        Err(e) => return Err(e),
    };
    let image = if frame.premultiplied && color.has_alpha() { unpremultiply(image) } else { image };
    let image = if !frame.transformed { image.apply_orientation(header.orientation) } else { image };
    let out = image.with_icc(copy_icc(&header.icc));
    assert(out@ =~= finished(
        ImageView { width: frame.width, height: frame.height, color, samples: frame.samples@, meta: empty_meta() },
        frame.premultiplied,
        frame.transformed,
        header.orientation,
        blob_view(header.icc),
    ));
    Ok(out)
}

/// The container header a HEIC backend needs before it decodes; a
/// container the walk cannot read is a `Codec` error.
pub fn container_header(bytes: &[u8]) -> (r: Result<Header, Error>)
    ensures
        match spec_header(bytes@) {
            Some(_) => r matches Ok(h) && header_is(Some(h), spec_header(bytes@)),
            None => r matches Err(Error::Codec(m)) && m@ == "HEIC container has no readable primary item"@,
        },
{
    match header(bytes) {
        Some(h) => Ok(h),
        None => {
            let mut m = String::new();
            push_str(&mut m, "HEIC container has no readable primary item");
            Err(Error::Codec(m))
        },
    }
}

} // verus!
