//! The single intermediate image every decoder produces and every encoder
//! consumes: interleaved samples of one of three widths in one of four
//! channel layouts, plus the ICC, EXIF and XMP blobs a container carries.
//! Orientation is applied by the decoders through
//! [`Image::apply_orientation`], which also resets the EXIF orientation
//! tag so kept EXIF never contradicts the pixels.

use vstd::prelude::*;
use vstd::arithmetic::div_mod::lemma_fundamental_div_mod_converse;
use crate::error::Error;
use crate::format::Format;
use crate::text::{push_str, push_decimal, decimal};

verus! {

/// Sample layout of an [`Image`].
#[derive(Debug, Clone, Copy, PartialEq, Eq, Hash, Structural)]
pub enum ColorType {
    /// Single channel.
    Gray,
    /// Gray plus alpha.
    GrayAlpha,
    /// Three channels.
    Rgb,
    /// RGB plus alpha.
    Rgba,
}

/// Samples per pixel of each layout.
pub open spec fn spec_channels(c: ColorType) -> nat {
    match c {
        ColorType::Gray => 1,
        ColorType::GrayAlpha => 2,
        ColorType::Rgb => 3,
        ColorType::Rgba => 4,
    }
}

/// Whether the last channel of a layout is alpha.
pub open spec fn spec_has_alpha(c: ColorType) -> bool {
    c == ColorType::GrayAlpha || c == ColorType::Rgba
}

/// The same layout without its alpha channel.
pub open spec fn spec_without_alpha(c: ColorType) -> ColorType {
    match c {
        ColorType::Gray | ColorType::GrayAlpha => ColorType::Gray,
        ColorType::Rgb | ColorType::Rgba => ColorType::Rgb,
    }
}

impl ColorType {
    /// Samples per pixel.
    pub fn channels(self) -> (r: usize)
        ensures
            r == spec_channels(self),
    {
        match self {
            ColorType::Gray => 1,
            ColorType::GrayAlpha => 2,
            ColorType::Rgb => 3,
            ColorType::Rgba => 4,
        }
    }

    /// Whether the last channel is alpha.
    pub fn has_alpha(self) -> (r: bool)
        ensures
            r == spec_has_alpha(self),
    {
        match self {
            ColorType::GrayAlpha | ColorType::Rgba => true,
            _ => false,
        }
    }

    /// The same layout with the alpha channel removed.
    pub fn without_alpha(self) -> (r: ColorType)
        ensures
            r == spec_without_alpha(self),
            spec_channels(r) == if spec_has_alpha(self) { spec_channels(self) - 1 } else {
                spec_channels(self) as int
            },
    {
        match self {
            ColorType::Gray | ColorType::GrayAlpha => ColorType::Gray,
            ColorType::Rgb | ColorType::Rgba => ColorType::Rgb,
        }
    }
}

/// Width of one sample.
#[derive(Debug, Clone, Copy, PartialEq, Eq, Hash, Structural)]
pub enum SampleFormat {
    /// 8-bit unsigned.
    U8,
    /// 16-bit unsigned.
    U16,
    /// 32-bit float, linear light.
    F32,
}

impl SampleFormat {
    /// Bits per sample.
    pub fn bits(self) -> (r: u8)
        ensures
            r == match self {
                SampleFormat::U8 => 8u8,
                SampleFormat::U16 => 16u8,
                SampleFormat::F32 => 32u8,
            },
    {
        match self {
            SampleFormat::U8 => 8,
            SampleFormat::U16 => 16,
            SampleFormat::F32 => 32,
        }
    }
}

/// EXIF / TIFF orientation: the transform that maps stored samples to the
/// picture the author intended. The variants follow the values of TIFF tag
/// 0x0112, one to eight.
#[derive(Debug, Clone, Copy, PartialEq, Eq, Hash, Structural)]
pub enum Orientation {
    /// Stored as displayed.
    Normal,
    /// Mirrored left to right.
    FlipHorizontal,
    /// Rotated 180 degrees.
    Rotate180,
    /// Mirrored top to bottom.
    FlipVertical,
    /// Mirrored along the top-left to bottom-right diagonal.
    Transpose,
    /// Rotated 90 degrees clockwise.
    Rotate90,
    /// Mirrored along the top-right to bottom-left diagonal.
    Transverse,
    /// Rotated 270 degrees clockwise.
    Rotate270,
}

/// The orientation an EXIF tag value names, for the values one to eight.
pub open spec fn spec_from_exif(value: u32) -> Option<Orientation> {
    if value == 1 {
        Some(Orientation::Normal)
    } else if value == 2 {
        Some(Orientation::FlipHorizontal)
    } else if value == 3 {
        Some(Orientation::Rotate180)
    } else if value == 4 {
        Some(Orientation::FlipVertical)
    } else if value == 5 {
        Some(Orientation::Transpose)
    } else if value == 6 {
        Some(Orientation::Rotate90)
    } else if value == 7 {
        Some(Orientation::Transverse)
    } else if value == 8 {
        Some(Orientation::Rotate270)
    } else {
        None
    }
}

/// An orientation as a transpose followed by flips of the output's x and y
/// axes: `(swap, flip_x, flip_y)`.
pub open spec fn spec_parts(o: Orientation) -> (bool, bool, bool) {
    match o {
        Orientation::Normal => (false, false, false),
        Orientation::FlipHorizontal => (false, true, false),
        Orientation::Rotate180 => (false, true, true),
        Orientation::FlipVertical => (false, false, true),
        Orientation::Transpose => (true, false, false),
        Orientation::Rotate90 => (true, true, false),
        Orientation::Transverse => (true, true, true),
        Orientation::Rotate270 => (true, false, true),
    }
}

/// The orientation with the given parts.
pub open spec fn spec_from_parts(swap: bool, flip_x: bool, flip_y: bool) -> Orientation {
    if !swap {
        if !flip_x {
            if !flip_y { Orientation::Normal } else { Orientation::FlipVertical }
        } else {
            if !flip_y { Orientation::FlipHorizontal } else { Orientation::Rotate180 }
        }
    } else {
        if !flip_x {
            if !flip_y { Orientation::Transpose } else { Orientation::Rotate270 }
        } else {
            if !flip_y { Orientation::Rotate90 } else { Orientation::Transverse }
        }
    }
}

/// The orientation that applies `a` first and `b` after it. Moving the
/// second transpose past the first pair of flips exchanges the axes those
/// flips act on.
pub open spec fn spec_then(a: Orientation, b: Orientation) -> Orientation {
    let (s1, x1, y1) = spec_parts(a);
    let (s2, x2, y2) = spec_parts(b);
    let (fx, fy) = if s2 { (y1, x1) } else { (x1, y1) };
    spec_from_parts(s1 != s2, fx != x2, fy != y2)
}

/// Whether an orientation swaps width and height.
pub open spec fn spec_swaps_axes(o: Orientation) -> bool {
    spec_parts(o).0
}

/// The EXIF `Orientation` values as the TIFF/EXIF table defines them,
/// each read as where the stored image's rows and columns go: `1` as
/// stored, `2` mirrored left to right, `3` turned half a turn (mirrored
/// both ways), `4` mirrored top to bottom, `5` to `8` with rows and columns
/// exchanged, then `6` (a quarter turn clockwise) mirrored left to right,
/// `7` both ways, `8` (a quarter turn anticlockwise) top to bottom.
/// Values one to eight name the orientations in EXIF order, the order
/// [`Orientation::ALL`] lists them in; every other value names none.
pub proof fn lemma_exif_orientation_table(v: u32)
    ensures
        spec_from_exif(1) matches Some(o) && spec_parts(o) == (false, false, false),
        spec_from_exif(2) matches Some(o) && spec_parts(o) == (false, true, false),
        spec_from_exif(3) matches Some(o) && spec_parts(o) == (false, true, true),
        spec_from_exif(4) matches Some(o) && spec_parts(o) == (false, false, true),
        spec_from_exif(5) matches Some(o) && spec_parts(o) == (true, false, false),
        spec_from_exif(6) matches Some(o) && spec_parts(o) == (true, true, false),
        spec_from_exif(7) matches Some(o) && spec_parts(o) == (true, true, true),
        spec_from_exif(8) matches Some(o) && spec_parts(o) == (true, false, true),
        1 <= v <= 8 ==> spec_from_exif(v) == Some(spec_all_orientations()[v - 1]),
        Orientation::ALL@ == spec_all_orientations(),
        (v == 0 || v > 8) ==> spec_from_exif(v) is None,
        spec_from_exif(3) == Some(Orientation::Rotate180) && spec_from_exif(6) == Some(Orientation::Rotate90)
            && spec_from_exif(8) == Some(Orientation::Rotate270) && spec_from_exif(4) == Some(Orientation::FlipVertical),
{
    assert(Orientation::ALL@ =~= spec_all_orientations());
}

/// The orientations in EXIF order.
pub open spec fn spec_all_orientations() -> Seq<Orientation> {
    seq![
        Orientation::Normal,
        Orientation::FlipHorizontal,
        Orientation::Rotate180,
        Orientation::FlipVertical,
        Orientation::Transpose,
        Orientation::Rotate90,
        Orientation::Transverse,
        Orientation::Rotate270,
    ]
}

impl Orientation {
    /// Every orientation, in EXIF order.
    pub const ALL: [Orientation; 8] = [
        Orientation::Normal,
        Orientation::FlipHorizontal,
        Orientation::Rotate180,
        Orientation::FlipVertical,
        Orientation::Transpose,
        Orientation::Rotate90,
        Orientation::Transverse,
        Orientation::Rotate270,
    ];

    /// From the raw EXIF tag value; `None` for anything outside one to
    /// eight.
    pub fn from_exif(value: u32) -> (r: Option<Orientation>)
        ensures
            r == spec_from_exif(value),
    {
        match value {
            1 => Some(Orientation::Normal),
            2 => Some(Orientation::FlipHorizontal),
            3 => Some(Orientation::Rotate180),
            4 => Some(Orientation::FlipVertical),
            5 => Some(Orientation::Transpose),
            6 => Some(Orientation::Rotate90),
            7 => Some(Orientation::Transverse),
            8 => Some(Orientation::Rotate270),
            _ => None,
        }
    }

    /// Whether applying this swaps width and height.
    pub fn swaps_axes(self) -> (r: bool)
        ensures
            r == spec_swaps_axes(self),
    {
        match self {
            Orientation::Transpose | Orientation::Rotate90 | Orientation::Transverse
            | Orientation::Rotate270 => true,
            _ => false,
        }
    }

    /// The orientation as `(swap, flip_x, flip_y)`.
    fn parts(self) -> (r: (bool, bool, bool))
        ensures
            r == spec_parts(self),
    {
        match self {
            Orientation::Normal => (false, false, false),
            Orientation::FlipHorizontal => (false, true, false),
            Orientation::Rotate180 => (false, true, true),
            Orientation::FlipVertical => (false, false, true),
            Orientation::Transpose => (true, false, false),
            Orientation::Rotate90 => (true, true, false),
            Orientation::Transverse => (true, true, true),
            Orientation::Rotate270 => (true, false, true),
        }
    }

    /// The orientation with the given parts.
    fn from_parts(swap: bool, flip_x: bool, flip_y: bool) -> (r: Orientation)
        ensures
            r == spec_from_parts(swap, flip_x, flip_y),
    {
        match (swap, flip_x, flip_y) {
            (false, false, false) => Orientation::Normal,
            (false, true, false) => Orientation::FlipHorizontal,
            (false, true, true) => Orientation::Rotate180,
            (false, false, true) => Orientation::FlipVertical,
            (true, false, false) => Orientation::Transpose,
            (true, true, false) => Orientation::Rotate90,
            (true, true, true) => Orientation::Transverse,
            (true, false, true) => Orientation::Rotate270,
        }
    }

    /// The single orientation that applies `self` first and `next` after
    /// it, so a container listing several transforms in order composes
    /// them into one [`Image::apply_orientation`].
    pub fn followed_by(self, next: Orientation) -> (r: Orientation)
        ensures
            r == spec_then(self, next),
    {
        let (s1, x1, y1) = self.parts();
        let (s2, x2, y2) = next.parts();
        let (fx, fy) = if s2 { (y1, x1) } else { (x1, y1) };
        Orientation::from_parts(s1 != s2, fx != x2, fy != y2)
    }
}

impl Default for Orientation {
    /// Stored as displayed.
    fn default() -> (r: Orientation)
        ensures
            r == Orientation::Normal,
    {
        Orientation::Normal
    }
}

/// The parts of an orientation name it exactly.
pub proof fn lemma_parts_round_trip(o: Orientation)
    ensures
        spec_from_parts(spec_parts(o).0, spec_parts(o).1, spec_parts(o).2) == o,
{
}

/// `Normal` is the identity of `followed_by`, on either side.
pub proof fn lemma_then_identity(a: Orientation)
    ensures
        spec_then(a, Orientation::Normal) == a,
        spec_then(Orientation::Normal, a) == a,
{
}

/// Composing orientations does not depend on how the steps are grouped.
pub proof fn lemma_then_associative(a: Orientation, b: Orientation, c: Orientation)
    ensures
        spec_then(spec_then(a, b), c) == spec_then(a, spec_then(b, c)),
{
}

/// Where an output pixel `(x, y)` of a `width` by `height` output comes
/// from in the stored image: undo the flips, then undo the transpose.
pub open spec fn source_xy(o: Orientation, width: int, height: int, x: int, y: int) -> (int, int) {
    let (swap, flip_x, flip_y) = spec_parts(o);
    let x1 = if flip_x { width - 1 - x } else { x };
    let y1 = if flip_y { height - 1 - y } else { y };
    if swap { (y1, x1) } else { (x1, y1) }
}

/// The size of the picture once `o` is applied to a `w` by `h` one.
pub open spec fn oriented_size(o: Orientation, w: int, h: int) -> (int, int) {
    if spec_swaps_axes(o) { (h, w) } else { (w, h) }
}

/// For output sample `i` of an oriented `w` by `h` buffer of `c` channels,
/// the index of the stored sample it copies.
pub open spec fn source_index(o: Orientation, w: int, h: int, c: int, i: int) -> int {
    let (ow, oh) = oriented_size(o, w, h);
    let p = i / c;
    let (sx, sy) = source_xy(o, ow, oh, p % ow, p / ow);
    (sy * w + sx) * c + i % c
}

/// An interleaved `w` by `h` buffer of `c` channels with `o` applied.
pub open spec fn oriented_samples<T>(v: Seq<T>, o: Orientation, w: int, h: int, c: int) -> Seq<T> {
    let (ow, oh) = oriented_size(o, w, h);
    Seq::new((ow * oh * c) as nat, |i: int| v[source_index(o, w, h, c, i)])
}

/// The index of sample `k` of pixel `(x, y)` in an interleaved buffer
/// `width` pixels wide, taken apart again.
proof fn lemma_index_parts(x: int, y: int, k: int, width: int, height: int, c: int)
    requires
        0 <= x < width,
        0 <= y < height,
        0 <= k < c,
    ensures
        0 <= (y * width + x) * c + k < width * height * c,
        ((y * width + x) * c + k) / c == y * width + x,
        ((y * width + x) * c + k) % c == k,
        (y * width + x) % width == x,
        (y * width + x) / width == y,
{
    lemma_fundamental_div_mod_converse((y * width + x) * c + k, c, y * width + x, k);
    lemma_fundamental_div_mod_converse(y * width + x, width, y, x);
    assert(0 <= (y * width + x) * c + k < width * height * c) by (nonlinear_arith)
        requires
            0 <= x < width,
            0 <= y < height,
            0 <= k < c,
    {
        assert(y * width + x + 1 <= y * width + width);
        assert(y * width + width == (y + 1) * width);
        assert((y + 1) * width <= height * width);
        assert((y * width + x + 1) * c <= height * width * c);
    }
}

/// Any index below `width * height * c` is sample `k` of some pixel.
proof fn lemma_index_split(i: int, width: int, height: int, c: int)
    requires
        0 <= i < width * height * c,
        width > 0,
        height > 0,
        c > 0,
    ensures
        0 <= (i / c) % width < width,
        0 <= (i / c) / width < height,
        0 <= i % c < c,
        i == (((i / c) / width) * width + (i / c) % width) * c + i % c,
{
    let p = i / c;
    assert(i == p * c + i % c) by (nonlinear_arith)
        requires c > 0, p == i / c;
    assert(p == (p / width) * width + p % width) by (nonlinear_arith)
        requires width > 0;
    assert(0 <= p < width * height) by (nonlinear_arith)
        requires 0 <= i < width * height * c, c > 0, p == i / c;
    assert(p / width < height) by (nonlinear_arith)
        requires 0 <= p < width * height, width > 0;
    assert(0 <= p % width < width) by (nonlinear_arith)
        requires width > 0, p >= 0;
    assert(p / width >= 0) by (nonlinear_arith)
        requires width > 0, p >= 0;
}

/// Sample `k` of output pixel `(x, y)` of an oriented buffer is sample
/// `k` of the stored pixel `source_xy` names.
proof fn lemma_oriented_at<T>(v: Seq<T>, o: Orientation, w: int, h: int, c: int, x: int, y: int, k: int)
    requires
        w > 0,
        h > 0,
        c > 0,
        0 <= x < oriented_size(o, w, h).0,
        0 <= y < oriented_size(o, w, h).1,
        0 <= k < c,
    ensures
        ({
            let ow = oriented_size(o, w, h).0;
            let i = (y * ow + x) * c + k;
            let (sx, sy) = source_xy(o, ow, oriented_size(o, w, h).1, x, y);
            &&& 0 <= i < oriented_samples(v, o, w, h, c).len()
            &&& source_index(o, w, h, c, i) == (sy * w + sx) * c + k
            &&& 0 <= sx < w
            &&& 0 <= sy < h
        }),
{
    let (ow, oh) = oriented_size(o, w, h);
    lemma_index_parts(x, y, k, ow, oh, c);
}

/// Applying `a` and then `b` moves every sample where `a.followed_by(b)` does.
proof fn lemma_source_composes(a: Orientation, b: Orientation, w: int, h: int, x: int, y: int)
    ensures
        ({
            let (w1, h1) = oriented_size(a, w, h);
            let (w2, h2) = oriented_size(b, w1, h1);
            let (x1, y1) = source_xy(b, w2, h2, x, y);
            &&& oriented_size(spec_then(a, b), w, h) == (w2, h2)
            &&& source_xy(a, w1, h1, x1, y1) == source_xy(spec_then(a, b), w2, h2, x, y)
        }),
{
}

/// Orienting a buffer twice is orienting it once by the composition.
proof fn lemma_samples_compose<T>(v: Seq<T>, a: Orientation, b: Orientation, w: int, h: int, c: int)
    requires
        w > 0,
        h > 0,
        c > 0,
    ensures
        ({
            let (w1, h1) = oriented_size(a, w, h);
            oriented_samples(oriented_samples(v, a, w, h, c), b, w1, h1, c)
                == oriented_samples(v, spec_then(a, b), w, h, c)
        }),
{
    let (w1, h1) = oriented_size(a, w, h);
    let (w2, h2) = oriented_size(b, w1, h1);
    let ab = spec_then(a, b);
    let mid = oriented_samples(v, a, w, h, c);
    let twice = oriented_samples(mid, b, w1, h1, c);
    let once = oriented_samples(v, ab, w, h, c);
    assert(w2 * h2 * c == w * h * c) by (nonlinear_arith)
        requires (w2 == w && h2 == h) || (w2 == h && h2 == w);
    assert forall|i: int| 0 <= i < twice.len() implies twice[i] == once[i] by {
        lemma_index_split(i, w2, h2, c);
        let p = i / c;
        let x = p % w2;
        let y = p / w2;
        let k = i % c;
        lemma_source_composes(a, b, w, h, x, y);
        let (x1, y1) = source_xy(b, w2, h2, x, y);
        lemma_oriented_at(mid, b, w1, h1, c, x, y, k);
        lemma_oriented_at(v, ab, w, h, c, x, y, k);
        lemma_oriented_at(v, a, w, h, c, x1, y1, k);
    }
    assert(twice =~= once);
}

/// Gathers the samples of an oriented buffer.
fn remap<T: Copy>(v: &[T], o: Orientation, w: usize, h: usize, c: usize) -> (out: Vec<T>)
    requires
        v@.len() == w * h * c,
        w > 0,
        h > 0,
        c > 0,
    ensures
        out@ == oriented_samples(v@, o, w as int, h as int, c as int),
{
    let (ow, oh) = if o.swaps_axes() { (h, w) } else { (w, h) };
    let (swap, flip_x, flip_y) = o.parts();
    let ghost target = oriented_samples(v@, o, w as int, h as int, c as int);
    assert(ow * oh * c == w * h * c) by (nonlinear_arith)
        requires (ow == w && oh == h) || (ow == h && oh == w);
    let n = v.len();
    let mut out: Vec<T> = Vec::new();
    let mut y: usize = 0;
    while y < oh
        invariant
            (ow as int, oh as int) == oriented_size(o, w as int, h as int),
            (swap, flip_x, flip_y) == spec_parts(o),
            v@.len() == w * h * c,
            n == v@.len(),
            w > 0,
            h > 0,
            c > 0,
            target == oriented_samples(v@, o, w as int, h as int, c as int),
            y <= oh,
            out@ == target.subrange(0, y * ow * c),
        decreases oh - y,
    {
        let mut x: usize = 0;
        while x < ow
            invariant
                (ow as int, oh as int) == oriented_size(o, w as int, h as int),
                (swap, flip_x, flip_y) == spec_parts(o),
                v@.len() == w * h * c,
                n == v@.len(),
                w > 0,
                h > 0,
                c > 0,
                target == oriented_samples(v@, o, w as int, h as int, c as int),
                y < oh,
                x <= ow,
                out@ == target.subrange(0, (y * ow + x) * c),
            decreases ow - x,
        {
            let x1 = if flip_x { ow - 1 - x } else { x };
            let y1 = if flip_y { oh - 1 - y } else { y };
            let (sx, sy) = if swap { (y1, x1) } else { (x1, y1) };
            proof {
                lemma_oriented_at(v@, o, w as int, h as int, c as int, x as int, y as int, 0);
                lemma_index_parts(sx as int, sy as int, 0, w as int, h as int, c as int);
                assert((sy * w + sx) * c + c <= w * h * c) by (nonlinear_arith)
                    requires 0 <= sx < w, 0 <= sy < h, c > 0;
                assert(sy * w <= sy * w + sx <= (sy * w + sx) * c) by (nonlinear_arith)
                    requires 0 <= sx < w, 0 <= sy < h, c > 0;
            }
            let at = (sy * w + sx) * c;
            let mut k: usize = 0;
            while k < c
                invariant
                    (ow as int, oh as int) == oriented_size(o, w as int, h as int),
                    v@.len() == w * h * c,
                    n == v@.len(),
                    w > 0,
                    h > 0,
                    c > 0,
                    target == oriented_samples(v@, o, w as int, h as int, c as int),
                    y < oh,
                    x < ow,
                    k <= c,
                    (sx as int, sy as int) == source_xy(o, ow as int, oh as int, x as int, y as int),
                    at == (sy * w + sx) * c,
                    at + c <= v@.len(),
                    out@ == target.subrange(0, (y * ow + x) * c + k),
                decreases c - k,
            {
                proof {
                    lemma_oriented_at(v@, o, w as int, h as int, c as int, x as int, y as int, k as int);
                }
                out.push(v[at + k]);
                k = k + 1;
                assert(out@ =~= target.subrange(0, (y * ow + x) * c + k));
            }
            x = x + 1;
            assert((y * ow + (x - 1)) * c + c == (y * ow + x) * c) by (nonlinear_arith);
        }
        y = y + 1;
        assert((y - 1) * ow * c + ow * c == y * ow * c) by (nonlinear_arith);
        assert(((y - 1) * ow + ow) * c == y * ow * c) by (nonlinear_arith);
    }
    assert(oh * ow * c == ow * oh * c) by (nonlinear_arith);
    assert(out@ =~= target);
    out
}

/// Sample storage. Decoders pick the smallest type that is lossless for the
/// source; `F32` is reserved for HDR input and holds the IEEE 754 bit
/// pattern of each float, which is all the library moves around.
#[derive(Debug, Clone, PartialEq)]
pub enum Samples {
    /// 8 bits per sample.
    U8(Vec<u8>),
    /// 16 bits per sample.
    U16(Vec<u16>),
    /// Linear float samples, as `f32::to_bits` gives them.
    F32(Vec<u32>),
}

/// What a sample buffer holds.
#[verifier::ext_equal]
pub enum SampleData {
    /// 8-bit samples.
    U8(Seq<u8>),
    /// 16-bit samples.
    U16(Seq<u16>),
    /// Float samples, as bit patterns.
    F32(Seq<u32>),
}

/// Number of samples held.
pub open spec fn data_len(d: SampleData) -> nat {
    match d {
        SampleData::U8(v) => v.len(),
        SampleData::U16(v) => v.len(),
        SampleData::F32(v) => v.len(),
    }
}

/// The sample width of held data.
pub open spec fn data_format(d: SampleData) -> SampleFormat {
    match d {
        SampleData::U8(_) => SampleFormat::U8,
        SampleData::U16(_) => SampleFormat::U16,
        SampleData::F32(_) => SampleFormat::F32,
    }
}

impl View for Samples {
    type V = SampleData;

    open spec fn view(&self) -> SampleData {
        match self {
            Samples::U8(v) => SampleData::U8(v@),
            Samples::U16(v) => SampleData::U16(v@),
            Samples::F32(v) => SampleData::F32(v@),
        }
    }
}

impl Samples {
    /// Number of samples, across all channels.
    pub fn len(&self) -> (r: usize)
        ensures
            r == data_len(self@),
    {
        match self {
            Samples::U8(v) => v.len(),
            Samples::U16(v) => v.len(),
            Samples::F32(v) => v.len(),
        }
    }

    /// True when there are no samples.
    pub fn is_empty(&self) -> (r: bool)
        ensures
            r == (data_len(self@) == 0),
    {
        self.len() == 0
    }

    /// Which variant this is.
    pub fn format(&self) -> (r: SampleFormat)
        ensures
            r == data_format(self@),
    {
        match self {
            Samples::U8(_) => SampleFormat::U8,
            Samples::U16(_) => SampleFormat::U16,
            Samples::F32(_) => SampleFormat::F32,
        }
    }

    /// The 8-bit buffer, if that is what this is.
    pub fn as_u8(&self) -> (r: Option<&[u8]>)
        ensures
            match self@ {
                SampleData::U8(v) => r.is_some() && r.unwrap()@ == v,
                _ => r.is_none(),
            },
    {
        match self {
            Samples::U8(v) => Some(v.as_slice()),
            _ => None,
        }
    }

    /// The 16-bit buffer, if that is what this is.
    pub fn as_u16(&self) -> (r: Option<&[u16]>)
        ensures
            match self@ {
                SampleData::U16(v) => r.is_some() && r.unwrap()@ == v,
                _ => r.is_none(),
            },
    {
        match self {
            Samples::U16(v) => Some(v.as_slice()),
            _ => None,
        }
    }

    /// The float buffer, as bit patterns, if that is what this is.
    pub fn as_f32(&self) -> (r: Option<&[u32]>)
        ensures
            match self@ {
                SampleData::F32(v) => r.is_some() && r.unwrap()@ == v,
                _ => r.is_none(),
            },
    {
        match self {
            Samples::F32(v) => Some(v.as_slice()),
            _ => None,
        }
    }
}

/// The view of an optional blob.
pub open spec fn blob_view(b: Option<Vec<u8>>) -> Option<Seq<u8>> {
    match b {
        Some(v) => Some(v@),
        None => None,
    }
}

/// The blobs a container carries beside the pixels.
#[derive(Debug, Clone, PartialEq, Eq, Default)]
pub struct Metadata {
    /// ICC profile, the bytes as embedded.
    pub icc: Option<Vec<u8>>,
    /// EXIF as a TIFF structure starting at the byte-order mark, without
    /// the `Exif\0\0` prefix JPEG uses.
    pub exif: Option<Vec<u8>>,
    /// XMP packet, the XML bytes.
    pub xmp: Option<Vec<u8>>,
}

/// What a [`Metadata`] holds.
#[verifier::ext_equal]
pub struct MetaView {
    /// ICC profile.
    pub icc: Option<Seq<u8>>,
    /// EXIF, from the TIFF header on.
    pub exif: Option<Seq<u8>>,
    /// XMP packet.
    pub xmp: Option<Seq<u8>>,
}

impl View for Metadata {
    type V = MetaView;

    open spec fn view(&self) -> MetaView {
        MetaView { icc: blob_view(self.icc), exif: blob_view(self.exif), xmp: blob_view(self.xmp) }
    }
}

/// No blobs at all.
pub open spec fn empty_meta() -> MetaView {
    MetaView { icc: None, exif: None, xmp: None }
}

/// A copy of a byte buffer.
fn copy_bytes(v: &Vec<u8>) -> (r: Vec<u8>)
    ensures
        r@ == v@,
{
    vstd::slice::slice_to_vec(v.as_slice())
}

/// A copy of an optional blob.
fn copy_blob(b: &Option<Vec<u8>>) -> (r: Option<Vec<u8>>)
    ensures
        blob_view(r) == blob_view(*b),
{
    match b {
        Some(v) => Some(copy_bytes(v)),
        None => None,
    }
}

/// A copy of every blob.
fn copy_meta(m: &Metadata) -> (r: Metadata)
    ensures
        r@ == m@,
{
    Metadata { icc: copy_blob(&m.icc), exif: copy_blob(&m.exif), xmp: copy_blob(&m.xmp) }
}

/// What an [`Image`] is: its size, layout, samples and blobs.
#[verifier::ext_equal]
pub struct ImageView {
    /// Width in pixels.
    pub width: u32,
    /// Height in pixels.
    pub height: u32,
    /// Channel layout.
    pub color: ColorType,
    /// Interleaved samples, row-major.
    pub samples: SampleData,
    /// Blobs carried beside the pixels.
    pub meta: MetaView,
}

/// Both dimensions are non-zero and the buffer holds exactly one sample
/// per channel of every pixel.
pub open spec fn image_wf(m: ImageView) -> bool {
    &&& m.width > 0
    &&& m.height > 0
    &&& data_len(m.samples) == m.width * m.height * spec_channels(m.color)
}

/// A decoded image, orientation already applied.
#[derive(Debug, PartialEq)]
pub struct Image {
    width: u32,
    height: u32,
    color: ColorType,
    samples: Samples,
    meta: Metadata,
}

impl View for Image {
    type V = ImageView;

    closed spec fn view(&self) -> ImageView {
        ImageView {
            width: self.width,
            height: self.height,
            color: self.color,
            samples: self.samples@,
            meta: self.meta@,
        }
    }
}

/// A 16-bit value at `at` in the given byte order, if it is in bounds.
pub open spec fn read16(b: Seq<u8>, at: int, big: bool) -> Option<int> {
    if 0 <= at && at + 2 <= b.len() {
        Some(if big { b[at] * 256 + b[at + 1] } else { b[at] + b[at + 1] * 256 })
    } else {
        None
    }
}

/// A 32-bit value at `at` in the given byte order, if it is in bounds.
pub open spec fn read32(b: Seq<u8>, at: int, big: bool) -> Option<int> {
    if 0 <= at && at + 4 <= b.len() {
        Some(
            if big {
                ((b[at] * 256 + b[at + 1]) * 256 + b[at + 2]) * 256 + b[at + 3]
            } else {
                b[at] + (b[at + 1] + (b[at + 2] + b[at + 3] * 256) * 256) * 256
            },
        )
    } else {
        None
    }
}

/// The byte order a TIFF structure declares: `MM` big, `II` little.
pub open spec fn tiff_big_endian(b: Seq<u8>) -> Option<bool> {
    if b.len() >= 2 && b[0] == 0x4D && b[1] == 0x4D {
        Some(true)
    } else if b.len() >= 2 && b[0] == 0x49 && b[1] == 0x49 {
        Some(false)
    } else {
        None
    }
}

/// Whether the twelve-byte IFD entry at `at` is an `Orientation` entry of
/// the standard shape: tag 0x0112, type SHORT, count one, wholly in bounds.
pub open spec fn is_orientation_entry(b: Seq<u8>, big: bool, at: int) -> bool {
    &&& at + 10 <= b.len()
    &&& read16(b, at, big) == Some(0x0112int)
    &&& read16(b, at + 2, big) == Some(3int)
    &&& read32(b, at + 4, big) == Some(1int)
}

/// The offset of the first standard `Orientation` entry among entries
/// `i..n` of the IFD at `ifd`.
pub open spec fn first_orientation_entry(b: Seq<u8>, big: bool, ifd: int, n: int, i: int) -> Option<int>
    decreases n - i,
{
    if i >= n {
        None
    } else if is_orientation_entry(b, big, ifd + 2 + 12 * i) {
        Some(ifd + 2 + 12 * i)
    } else {
        first_orientation_entry(b, big, ifd, n, i + 1)
    }
}

/// The offset of the `Orientation` entry of the first IFD of an EXIF
/// blob, when the blob parses and has one of the standard shape.
pub open spec fn exif_orientation_entry(b: Seq<u8>) -> Option<int> {
    match tiff_big_endian(b) {
        None => None,
        Some(big) => if read16(b, 2, big) != Some(42int) {
            None
        } else {
            match read32(b, 4, big) {
                None => None,
                Some(ifd) => match read16(b, ifd, big) {
                    None => None,
                    Some(n) => first_orientation_entry(b, big, ifd, n, 0),
                },
            }
        },
    }
}

/// The blob with its `Orientation` entry, if it has one, set to one.
pub open spec fn spec_reset_exif(b: Seq<u8>) -> Seq<u8> {
    match exif_orientation_entry(b) {
        Some(at) => {
            let big = tiff_big_endian(b) == Some(true);
            b.update(at + 8, if big { 0u8 } else { 1u8 }).update(at + 9, if big { 1u8 } else { 0u8 })
        },
        None => b,
    }
}

/// Reads a 16-bit value, `None` when it is out of bounds.
fn read_u16(b: &[u8], at: u64, big: bool) -> (r: Option<u64>)
    ensures
        match read16(b@, at as int, big) {
            Some(v) => r == Some(v as u64),
            None => r.is_none(),
        },
{
    let n = b.len() as u64;
    if n < 2 || at > n - 2 {
        return None;
    }
    let i = at as usize;
    let (b0, b1) = (b[i] as u64, b[i + 1] as u64);
    Some(if big { b0 * 256 + b1 } else { b0 + b1 * 256 })
}

/// Reads a 32-bit value, `None` when it is out of bounds.
fn read_u32(b: &[u8], at: u64, big: bool) -> (r: Option<u64>)
    ensures
        match read32(b@, at as int, big) {
            Some(v) => r == Some(v as u64),
            None => r.is_none(),
        },
{
    let n = b.len() as u64;
    if n < 4 || at > n - 4 {
        return None;
    }
    let i = at as usize;
    let (b0, b1, b2, b3) = (b[i] as u64, b[i + 1] as u64, b[i + 2] as u64, b[i + 3] as u64);
    Some(
        if big {
            ((b0 * 256 + b1) * 256 + b2) * 256 + b3
        } else {
            b0 + (b1 + (b2 + b3 * 256) * 256) * 256
        },
    )
}

/// Sets the `Orientation` entry of the first IFD to one, in place. Only an
/// entry of the standard shape (type SHORT, count one) is touched; anything
/// else, including a blob that does not parse or an entry cut short by the
/// end of the blob, is left alone. Returns whether an entry was rewritten.
pub fn reset_exif_orientation(exif: &mut [u8]) -> (r: bool)
    ensures
        r == exif_orientation_entry(old(exif)@).is_some(),
        final(exif)@ == spec_reset_exif(old(exif)@),
{
    let n = exif.len();
    if n < 2 {
        return false;
    }
    let big = if exif[0] == 0x4D && exif[1] == 0x4D {
        true
    } else if exif[0] == 0x49 && exif[1] == 0x49 {
        false
    } else {
        return false;
    };
    match read_u16(exif, 2, big) {
        Some(v) => if v != 42 {
            return false;
        },
        None => return false,
    }
    let ifd = match read_u32(exif, 4, big) {
        Some(v) => v,
        None => return false,
    };
    let entries = match read_u16(exif, ifd, big) {
        Some(v) => v,
        None => return false,
    };
    let ghost b = exif@;
    let mut i: u64 = 0;
    while i < entries
        invariant
            exif@ == b,
            b == old(exif)@,
            b.len() == n,
            tiff_big_endian(b) == Some(big),
            read16(b, 2, big) == Some(42int),
            read32(b, 4, big) == Some(ifd as int),
            read16(b, ifd as int, big) == Some(entries as int),
            ifd < 0x1_0000_0000,
            entries < 0x1_0000,
            i <= entries,
            exif_orientation_entry(b) == first_orientation_entry(b, big, ifd as int, entries as int, i as int),
        decreases entries - i,
    {
        let at = ifd + 2 + 12 * i;
        let tag = read_u16(exif, at, big);
        let kind = read_u16(exif, at + 2, big);
        let count = read_u32(exif, at + 4, big);
        if tag == Some(0x0112u64) && kind == Some(3u64) && count == Some(1u64) && at + 10 <= n as u64 {
            proof {
                assert(is_orientation_entry(b, big, at as int));
                assert(first_orientation_entry(b, big, ifd as int, entries as int, i as int) == Some(at as int));
            }
            let slot = (at + 8) as usize;
            if big {
                exif[slot] = 0;
                exif[slot + 1] = 1;
            } else {
                exif[slot] = 1;
                exif[slot + 1] = 0;
            }
            return true;
        }
        i = i + 1;
    }
    false
}

/// Every byte below `lim` is the same in both blobs, which have one length.
pub open spec fn same_prefix(b: Seq<u8>, b2: Seq<u8>, lim: int) -> bool {
    &&& b2.len() == b.len()
    &&& forall|p: int| 0 <= p < lim && p < b.len() ==> b2[p] == b[p]
}

proof fn lemma_reads_agree(b: Seq<u8>, b2: Seq<u8>, lim: int, big: bool, at: int)
    requires
        same_prefix(b, b2, lim),
        0 <= at,
    ensures
        at + 2 <= lim ==> read16(b2, at, big) == read16(b, at, big),
        at + 4 <= lim ==> read32(b2, at, big) == read32(b, at, big),
{
    if at + 2 <= lim && at + 2 <= b.len() {
        assert(b2[at] == b[at]);
        assert(b2[at + 1] == b[at + 1]);
    }
    if at + 4 <= lim && at + 4 <= b.len() {
        assert(b2[at] == b[at]);
        assert(b2[at + 1] == b[at + 1]);
        assert(b2[at + 2] == b[at + 2]);
        assert(b2[at + 3] == b[at + 3]);
    }
}

proof fn lemma_first_entry_stable(b: Seq<u8>, b2: Seq<u8>, lim: int, big: bool, ifd: int, n: int, i: int, at: int)
    requires
        same_prefix(b, b2, lim),
        0 <= ifd,
        0 <= i,
        first_orientation_entry(b, big, ifd, n, i) == Some(at),
        at + 8 <= lim,
    ensures
        first_orientation_entry(b2, big, ifd, n, i) == Some(at),
        at >= ifd + 2 + 12 * i,
        is_orientation_entry(b, big, at),
    decreases n - i,
{
    let here = ifd + 2 + 12 * i;
    lemma_reads_agree(b, b2, lim, big, here);
    lemma_reads_agree(b, b2, lim, big, here + 2);
    lemma_reads_agree(b, b2, lim, big, here + 4);
    if is_orientation_entry(b, big, here) {
    } else {
        lemma_first_entry_stable(b, b2, lim, big, ifd, n, i + 1, at);
    }
}

/// Resetting the orientation tag changes nothing when the blob has no
/// standard `Orientation` entry in its first IFD; otherwise it changes
/// only the two value bytes of the first such entry, which then read one
/// in the blob's byte order, and the blob keeps its length.
pub proof fn lemma_reset_exif_touches_only_the_value(e: Seq<u8>)
    ensures
        spec_reset_exif(e).len() == e.len(),
        exif_orientation_entry(e) is None ==> spec_reset_exif(e) == e,
        exif_orientation_entry(e) matches Some(at) ==> {
            let big = tiff_big_endian(e) == Some(true);
            &&& 0 <= at && at + 10 <= e.len()
            &&& is_orientation_entry(e, big, at)
            &&& read16(spec_reset_exif(e), at + 8, big) == Some(1int)
            &&& forall|i: int| 0 <= i < e.len() && i != at + 8 && i != at + 9 ==> #[trigger] spec_reset_exif(e)[i] == e[i]
        },
{
    match exif_orientation_entry(e) {
        None => {},
        Some(at) => {
            let big = tiff_big_endian(e) == Some(true);
            let ifd = read32(e, 4, big).unwrap();
            let n = read16(e, ifd, big).unwrap();
            lemma_first_entry_stable(e, e, at + 8, big, ifd, n, 0, at);
        },
    }
}

/// Resetting the orientation tag twice is resetting it once: the rewrite
/// leaves the entry it found in place and still of the standard shape.
pub proof fn lemma_reset_exif_idempotent(e: Seq<u8>)
    ensures
        spec_reset_exif(spec_reset_exif(e)) == spec_reset_exif(e),
{
    match exif_orientation_entry(e) {
        None => {},
        Some(at) => {
            let big = tiff_big_endian(e) == Some(true);
            let e2 = spec_reset_exif(e);
            let ifd = read32(e, 4, big).unwrap();
            let n = read16(e, ifd, big).unwrap();
            lemma_first_entry_stable(e, e, at + 8, big, ifd, n, 0, at);
            assert(at + 10 <= e.len());
            assert(same_prefix(e, e2, at + 8));
            lemma_first_entry_stable(e, e2, at + 8, big, ifd, n, 0, at);
            lemma_reads_agree(e, e2, at + 8, big, 2);
            lemma_reads_agree(e, e2, at + 8, big, 4);
            lemma_reads_agree(e, e2, at + 8, big, ifd);
            assert(e2[0] == e[0] && e2[1] == e[1]);
            assert(exif_orientation_entry(e2) == Some(at));
            assert(spec_reset_exif(e2) =~= e2);
        },
    }
}

/// The blob, with the `Exif\0\0` prefix JPEG puts in front dropped.
pub open spec fn strip_exif_prefix(raw: Seq<u8>) -> Seq<u8> {
    if raw.len() >= 6 && raw[0] == 0x45 && raw[1] == 0x78 && raw[2] == 0x69 && raw[3] == 0x66
        && raw[4] == 0 && raw[5] == 0 {
        raw.subrange(6, raw.len() as int)
    } else {
        raw
    }
}

/// Samples held as they are laid out after `o` is applied.
pub open spec fn oriented_data(d: SampleData, o: Orientation, w: int, h: int, c: int) -> SampleData {
    match d {
        SampleData::U8(v) => SampleData::U8(oriented_samples(v, o, w, h, c)),
        SampleData::U16(v) => SampleData::U16(oriented_samples(v, o, w, h, c)),
        SampleData::F32(v) => SampleData::F32(oriented_samples(v, o, w, h, c)),
    }
}

/// The image with `o` applied: `Normal` changes nothing; anything else
/// moves the samples, swaps the size where `o` transposes, and resets the
/// EXIF orientation tag.
pub open spec fn spec_apply(m: ImageView, o: Orientation) -> ImageView {
    if o == Orientation::Normal {
        m
    } else {
        let (w2, h2) = oriented_size(o, m.width as int, m.height as int);
        ImageView {
            width: w2 as u32,
            height: h2 as u32,
            color: m.color,
            samples: oriented_data(
                m.samples,
                o,
                m.width as int,
                m.height as int,
                spec_channels(m.color) as int,
            ),
            meta: MetaView {
                icc: m.meta.icc,
                exif: match m.meta.exif {
                    Some(e) => Some(spec_reset_exif(e)),
                    None => None,
                },
                xmp: m.meta.xmp,
            },
        }
    }
}

/// `Normal` leaves a well-formed buffer as it is.
proof fn lemma_oriented_identity<T>(v: Seq<T>, w: int, h: int, c: int)
    requires
        w > 0,
        h > 0,
        c > 0,
        v.len() == w * h * c,
    ensures
        oriented_samples(v, Orientation::Normal, w, h, c) == v,
{
    let out = oriented_samples(v, Orientation::Normal, w, h, c);
    assert forall|i: int| 0 <= i < v.len() implies out[i] == v[i] by {
        lemma_index_split(i, w, h, c);
        lemma_oriented_at(v, Orientation::Normal, w, h, c, (i / c) % w, (i / c) / w, i % c);
    }
    assert(out =~= v);
}

proof fn lemma_data_compose(d: SampleData, a: Orientation, b: Orientation, w: int, h: int, c: int)
    requires
        w > 0,
        h > 0,
        c > 0,
        data_len(d) == w * h * c,
    ensures
        ({
            let (w1, h1) = oriented_size(a, w, h);
            oriented_data(oriented_data(d, a, w, h, c), b, w1, h1, c) == oriented_data(d, spec_then(a, b), w, h, c)
        }),
        spec_then(a, b) == Orientation::Normal ==> oriented_data(d, Orientation::Normal, w, h, c) == d,
{
    match d {
        SampleData::U8(v) => {
            lemma_samples_compose(v, a, b, w, h, c);
            lemma_oriented_identity(v, w, h, c);
        },
        SampleData::U16(v) => {
            lemma_samples_compose(v, a, b, w, h, c);
            lemma_oriented_identity(v, w, h, c);
        },
        SampleData::F32(v) => {
            lemma_samples_compose(v, a, b, w, h, c);
            lemma_oriented_identity(v, w, h, c);
        },
    }
}

/// Applying `a` and then `b` to an image gives the image `a.followed_by(b)` gives.
/// The one exception is the EXIF blob when the two steps cancel out: two
/// applications reset its orientation tag, while the combined `Normal`
/// leaves the blob alone, so the law asks that the reset change nothing.
pub proof fn lemma_apply_orientation_composes(m: ImageView, a: Orientation, b: Orientation)
    requires
        image_wf(m),
        (a != Orientation::Normal && spec_then(a, b) == Orientation::Normal) ==> match m.meta.exif {
            Some(e) => spec_reset_exif(e) == e,
            None => true,
        },
    ensures
        spec_apply(spec_apply(m, a), b) == spec_apply(m, spec_then(a, b)),
{
    lemma_then_identity(a);
    lemma_then_identity(b);
    let c = spec_channels(m.color) as int;
    let (w, h) = (m.width as int, m.height as int);
    lemma_data_compose(m.samples, a, b, w, h, c);
    match m.meta.exif {
        Some(e) => lemma_reset_exif_idempotent(e),
        None => {},
    }
    if a != Orientation::Normal && b != Orientation::Normal {
        let once = spec_apply(m, spec_then(a, b));
        let twice = spec_apply(spec_apply(m, a), b);
        assert(twice.meta =~= once.meta);
        assert(twice =~= once);
    }
}

/// The stored pixel that pixel `(x, y)` of an oriented picture, `ow` by
/// `oh`, shows, for each orientation as the EXIF pictures draw it: the
/// mirrors reverse a row or a column, the half turn both, the transpose
/// exchanges the axes, the quarter turn clockwise brings the stored left
/// column to the top row read bottom to top, the quarter turn
/// anticlockwise the stored right column read top to bottom.
pub open spec fn turned_from(o: Orientation, ow: int, oh: int, x: int, y: int) -> (int, int) {
    match o {
        Orientation::Normal => (x, y),
        Orientation::FlipHorizontal => (ow - 1 - x, y),
        Orientation::Rotate180 => (ow - 1 - x, oh - 1 - y),
        Orientation::FlipVertical => (x, oh - 1 - y),
        Orientation::Transpose => (y, x),
        Orientation::Rotate90 => (y, ow - 1 - x),
        Orientation::Transverse => (oh - 1 - y, ow - 1 - x),
        Orientation::Rotate270 => (oh - 1 - y, x),
    }
}

/// Sample `k` of pixel `i` of held data, the same for every sample type.
pub open spec fn same_sample(a: SampleData, i: int, b: SampleData, j: int) -> bool {
    match (a, b) {
        (SampleData::U8(u), SampleData::U8(v)) => u[i] == v[j],
        (SampleData::U16(u), SampleData::U16(v)) => u[i] == v[j],
        (SampleData::F32(u), SampleData::F32(v)) => u[i] == v[j],
        _ => false,
    }
}

/// Applying an orientation moves pixels as the EXIF pictures draw it:
/// the four orientations that exchange the axes give a picture `h` wide
/// and `w` high, the others keep `w` by `h`; every sample of output pixel
/// `(x, y)` is that sample of the stored pixel [`turned_from`] names, so
/// that `Rotate90` turns the picture a quarter clockwise and `Rotate180`
/// half a turn.
pub proof fn lemma_orientation_moves_pixels(m: ImageView, o: Orientation, x: int, y: int, k: int)
    requires
        image_wf(m),
    ensures
        ({
            let out = spec_apply(m, o);
            let exchanged = o == Orientation::Transpose || o == Orientation::Rotate90
                || o == Orientation::Transverse || o == Orientation::Rotate270;
            &&& (out.width, out.height) == if exchanged { (m.height, m.width) } else { (m.width, m.height) }
            &&& out.color == m.color
            &&& 0 <= x < out.width && 0 <= y < out.height && 0 <= k < spec_channels(m.color) ==> {
                let (sx, sy) = turned_from(o, out.width as int, out.height as int, x, y);
                &&& 0 <= sx < m.width && 0 <= sy < m.height
                &&& same_sample(out.samples, (y * out.width + x) * spec_channels(m.color) + k,
                        m.samples, (sy * m.width + sx) * spec_channels(m.color) + k)
            }
        }),
{
    let out = spec_apply(m, o);
    let c = spec_channels(m.color) as int;
    let (w, h) = (m.width as int, m.height as int);
    if 0 <= x < out.width && 0 <= y < out.height && 0 <= k < c {
        let (ow, oh) = oriented_size(o, w, h);
        assert(out.width == ow && out.height == oh);
        assert(source_xy(o, ow, oh, x, y) == turned_from(o, ow, oh, x, y));
        if o == Orientation::Normal {
            lemma_oriented_at(Seq::<u8>::empty(), o, w, h, c, x, y, k);
        } else {
            match m.samples {
                SampleData::U8(v) => lemma_oriented_at(v, o, w, h, c, x, y, k),
                SampleData::U16(v) => lemma_oriented_at(v, o, w, h, c, x, y, k),
                SampleData::F32(v) => lemma_oriented_at(v, o, w, h, c, x, y, k),
            }
        }
    }
}

/// The name a layout is shown under in messages.
pub open spec fn spec_color_name(c: ColorType) -> Seq<char> {
    match c {
        ColorType::Gray => "Gray"@,
        ColorType::GrayAlpha => "GrayAlpha"@,
        ColorType::Rgb => "Rgb"@,
        ColorType::Rgba => "Rgba"@,
    }
}

/// `w` `x` `h`, as messages print a size.
pub open spec fn size_text(w: u32, h: u32) -> Seq<char> {
    decimal(w as nat) + "x"@ + decimal(h as nat)
}

/// Why [`Image::new`] refuses a size, layout and sample count, if it does.
pub open spec fn new_refusal(w: u32, h: u32, color: ColorType, len: nat) -> Option<Seq<char>> {
    let expected = w * h * spec_channels(color);
    if w == 0 || h == 0 {
        Some("image dimensions must be non-zero, got "@ + size_text(w, h))
    } else if expected > usize::MAX {
        Some(size_text(w, h) + " does not fit in memory"@)
    } else if len != expected {
        Some(
            "expected "@ + decimal(expected as nat) + " samples for "@ + size_text(w, h) + " "@
                + spec_color_name(color) + ", got "@ + decimal(len),
        )
    } else {
        None
    }
}

/// What [`Image::new`] returns for a size, layout and buffer.
pub open spec fn new_result_ok(r: Result<Image, Error>, w: u32, h: u32, color: ColorType, samples: SampleData) -> bool {
    match new_refusal(w, h, color, data_len(samples)) {
        None => r matches Ok(img) && img@ == ImageView {
            width: w,
            height: h,
            color,
            samples,
            meta: empty_meta(),
        },
        Some(msg) => r matches Err(Error::InvalidInput(m)) && m@ == msg,
    }
}

/// Round-to-nearest 16-bit to 8-bit, so that 0xFFFF maps to 0xFF exactly.
pub open spec fn spec_u16_to_u8(s: u16) -> u8 {
    ((s + 128) / 257) as u8
}

/// 16-bit samples rounded to 8 bits.
pub open spec fn narrowed(v: Seq<u16>) -> Seq<u8> {
    Seq::new(v.len(), |i: int| spec_u16_to_u8(v[i]))
}

/// The pixels of a `c`-channel buffer with the last channel of each
/// dropped.
pub open spec fn without_last_channel<T>(v: Seq<T>, c: int) -> Seq<T> {
    Seq::new(((v.len() as int) / c * (c - 1)) as nat, |i: int| v[(i / (c - 1)) * c + i % (c - 1)])
}

/// Samples held with the last channel of every pixel dropped.
pub open spec fn data_without_last(d: SampleData, c: int) -> SampleData {
    match d {
        SampleData::U8(v) => SampleData::U8(without_last_channel(v, c)),
        SampleData::U16(v) => SampleData::U16(without_last_channel(v, c)),
        SampleData::F32(v) => SampleData::F32(without_last_channel(v, c)),
    }
}

/// Round-to-nearest 16-bit to 8-bit.
pub fn u16_to_u8(s: u16) -> (r: u8)
    ensures
        r == spec_u16_to_u8(s),
{
    let wide: u32 = s as u32;
    ((wide + 128) / 257) as u8
}

fn drop_last_channel<T: Copy>(v: &[T], c: usize) -> (out: Vec<T>)
    requires
        c >= 2,
        (v@.len() as int) % (c as int) == 0,
    ensures
        out@ == without_last_channel(v@, c as int),
{
    let n = v.len();
    let ghost target = without_last_channel(v@, c as int);
    let mut out: Vec<T> = Vec::new();
    let mut p: usize = 0;
    let count = n / c;
    proof {
        assert(count * c == n) by (nonlinear_arith)
            requires count == (n as int) / (c as int), (n as int) % (c as int) == 0, c >= 2;
    }
    while p < count
        invariant
            n == v@.len(),
            c >= 2,
            count * c == n,
            count == (n as int) / (c as int),
            target == without_last_channel(v@, c as int),
            p <= count,
            out@ == target.subrange(0, p * (c - 1)),
        decreases count - p,
    {
        proof {
            assert((p + 1) * c <= count * c) by (nonlinear_arith)
                requires p < count, c >= 2;
            assert(p * c + c == (p + 1) * c) by (nonlinear_arith);
            assert(p * (c - 1) + (c - 1) <= count * (c - 1)) by (nonlinear_arith)
                requires p < count, c >= 2;
        }
        let base = p * c;
        let mut k: usize = 0;
        while k < c - 1
            invariant
                n == v@.len(),
                c >= 2,
                count * c == n,
                count == (n as int) / (c as int),
                target == without_last_channel(v@, c as int),
                p < count,
                base == p * c,
                base + c <= n,
                k <= c - 1,
                out@ == target.subrange(0, p * (c - 1) + k),
            decreases c - 1 - k,
        {
            proof {
                let i = p * (c - 1) + k;
                lemma_fundamental_div_mod_converse(i as int, (c - 1) as int, p as int, k as int);
                assert(i < count * (c - 1)) by (nonlinear_arith)
                    requires i == p * (c - 1) + k, k < c - 1, p < count;
            }
            out.push(v[base + k]);
            k = k + 1;
            assert(out@ =~= target.subrange(0, p * (c - 1) + k));
        }
        p = p + 1;
        assert((p - 1) * (c - 1) + (c - 1) == p * (c - 1)) by (nonlinear_arith);
    }
    assert(out@ =~= target);
    out
}

impl Image {
    #[verifier::type_invariant]
    spec fn well_formed(self) -> bool {
        image_wf(self@)
    }

    /// Builds an image, checking that both dimensions are non-zero and
    /// that the buffer holds `width * height * channels` samples.
    pub fn new(width: u32, height: u32, color: ColorType, samples: Samples) -> (r: Result<Image, Error>)
        ensures
            new_result_ok(r, width, height, color, samples@),
            r is Ok ==> image_wf(r.unwrap()@),
    {
        if width == 0 || height == 0 {
            let mut m = String::new();
            push_str(&mut m, "image dimensions must be non-zero, got ");
            push_size(&mut m, width, height);
            return Err(Error::InvalidInput(m));
        }
        let expected = match (width as usize).checked_mul(height as usize) {
            Some(px) => px.checked_mul(color.channels()),
            None => None,
        };
        let expected = match expected {
            Some(e) => e,
            None => {
                proof {
                    assert(width * height * spec_channels(color) >= width * height) by (nonlinear_arith)
                        requires spec_channels(color) >= 1;
                }
                let mut m = String::new();
                push_size(&mut m, width, height);
                push_str(&mut m, " does not fit in memory");
                return Err(Error::InvalidInput(m));
            },
        };
        let len = samples.len();
        if len != expected {
            let mut m = String::new();
            push_str(&mut m, "expected ");
            push_decimal(&mut m, expected as u64);
            push_str(&mut m, " samples for ");
            push_size(&mut m, width, height);
            push_str(&mut m, " ");
            push_str(&mut m, color_name(color));
            push_str(&mut m, ", got ");
            push_decimal(&mut m, len as u64);
            return Err(Error::InvalidInput(m));
        }
        Ok(Image { width, height, color, samples, meta: Metadata { icc: None, exif: None, xmp: None } })
    }

    /// Builds an 8-bit image; see [`Image::new`].
    pub fn from_u8(width: u32, height: u32, color: ColorType, samples: Vec<u8>) -> (r: Result<Image, Error>)
        ensures
            new_result_ok(r, width, height, color, SampleData::U8(samples@)),
            r is Ok ==> image_wf(r.unwrap()@),
    {
        Image::new(width, height, color, Samples::U8(samples))
    }

    /// Builds a 16-bit image; see [`Image::new`].
    pub fn from_u16(width: u32, height: u32, color: ColorType, samples: Vec<u16>) -> (r: Result<Image, Error>)
        ensures
            new_result_ok(r, width, height, color, SampleData::U16(samples@)),
            r is Ok ==> image_wf(r.unwrap()@),
    {
        Image::new(width, height, color, Samples::U16(samples))
    }

    /// Attaches or removes an ICC profile.
    pub fn with_icc(self, icc: Option<Vec<u8>>) -> (r: Image)
        ensures
            r@ == (ImageView { meta: MetaView { icc: blob_view(icc), ..self@.meta }, ..self@ }),
    {
        proof { use_type_invariant(&self); }
        let mut img = self;
        img.meta.icc = icc;
        img
    }

    /// Attaches or removes an ICC profile in place.
    pub fn set_icc(&mut self, icc: Option<Vec<u8>>)
        ensures
            final(self)@ == (ImageView { meta: MetaView { icc: blob_view(icc), ..old(self)@.meta }, ..old(self)@ }),
    {
        proof { use_type_invariant(&*self); }
        self.meta.icc = icc;
    }

    /// Attaches or removes EXIF. A leading `Exif\0\0` is stripped so the
    /// blob starts at the TIFF header whatever container it came from.
    pub fn with_exif(self, exif: Option<Vec<u8>>) -> (r: Image)
        ensures
            r@ == (ImageView {
                meta: MetaView {
                    exif: match exif {
                        Some(v) => Some(strip_exif_prefix(v@)),
                        None => None,
                    },
                    ..self@.meta
                },
                ..self@
            }),
    {
        let stripped = match exif {
            Some(raw) => {
                if raw.len() >= 6 && raw[0] == 0x45 && raw[1] == 0x78 && raw[2] == 0x69 && raw[3] == 0x66
                    && raw[4] == 0 && raw[5] == 0 {
                    let tail = vstd::slice::slice_to_vec(vstd::slice::slice_subrange(raw.as_slice(), 6, raw.len()));
                    Some(tail)
                } else {
                    Some(raw)
                }
            },
            None => None,
        };
        proof { use_type_invariant(&self); }
        let mut img = self;
        img.meta.exif = stripped;
        img
    }

    /// Attaches or removes an XMP packet.
    pub fn with_xmp(self, xmp: Option<Vec<u8>>) -> (r: Image)
        ensures
            r@ == (ImageView { meta: MetaView { xmp: blob_view(xmp), ..self@.meta }, ..self@ }),
    {
        proof { use_type_invariant(&self); }
        let mut img = self;
        img.meta.xmp = xmp;
        img
    }

    /// Replaces every blob at once.
    pub fn with_metadata(self, meta: Metadata) -> (r: Image)
        ensures
            r@ == (ImageView { meta: meta@, ..self@ }),
    {
        proof { use_type_invariant(&self); }
        let mut img = self;
        img.meta = meta;
        img
    }

    /// Drops EXIF and XMP, keeping the ICC profile.
    pub fn strip_metadata(&mut self)
        ensures
            final(self)@ == (ImageView {
                meta: MetaView { icc: old(self)@.meta.icc, exif: None, xmp: None },
                ..old(self)@
            }),
    {
        proof { use_type_invariant(&*self); }
        self.meta.exif = None;
        self.meta.xmp = None;
    }

    /// Width in pixels.
    pub fn width(&self) -> (r: u32)
        ensures
            r == self@.width,
    {
        self.width
    }

    /// Height in pixels.
    pub fn height(&self) -> (r: u32)
        ensures
            r == self@.height,
    {
        self.height
    }

    /// Channel layout.
    pub fn color(&self) -> (r: ColorType)
        ensures
            r == self@.color,
    {
        self.color
    }

    /// Interleaved samples, row-major; the buffer always holds one sample
    /// per channel of every pixel.
    pub fn samples(&self) -> (r: &Samples)
        ensures
            r@ == self@.samples,
            image_wf(self@),
    {
        proof { use_type_invariant(self); }
        &self.samples
    }

    /// Embedded ICC profile.
    pub fn icc(&self) -> (r: Option<&[u8]>)
        ensures
            match self@.meta.icc {
                Some(v) => r.is_some() && r.unwrap()@ == v,
                None => r.is_none(),
            },
    {
        match &self.meta.icc {
            Some(v) => Some(v.as_slice()),
            None => None,
        }
    }

    /// EXIF, as a TIFF structure from the byte-order mark on.
    pub fn exif(&self) -> (r: Option<&[u8]>)
        ensures
            match self@.meta.exif {
                Some(v) => r.is_some() && r.unwrap()@ == v,
                None => r.is_none(),
            },
    {
        match &self.meta.exif {
            Some(v) => Some(v.as_slice()),
            None => None,
        }
    }

    /// XMP packet.
    pub fn xmp(&self) -> (r: Option<&[u8]>)
        ensures
            match self@.meta.xmp {
                Some(v) => r.is_some() && r.unwrap()@ == v,
                None => r.is_none(),
            },
    {
        match &self.meta.xmp {
            Some(v) => Some(v.as_slice()),
            None => None,
        }
    }

    /// Every blob carried beside the pixels.
    pub fn metadata(&self) -> (r: &Metadata)
        ensures
            r@ == self@.meta,
    {
        &self.meta
    }

    /// Total pixel count.
    pub fn pixels(&self) -> (r: u64)
        ensures
            r == self@.width * self@.height,
    {
        proof {
            assert(self.width * self.height <= u32::MAX * u32::MAX) by (nonlinear_arith)
                requires self.width <= u32::MAX, self.height <= u32::MAX;
        }
        (self.width as u64) * (self.height as u64)
    }

    /// Samples per pixel.
    pub fn channels(&self) -> (r: usize)
        ensures
            r == spec_channels(self@.color),
    {
        self.color.channels()
    }

    /// Sample width.
    pub fn sample_format(&self) -> (r: SampleFormat)
        ensures
            r == data_format(self@.samples),
    {
        self.samples.format()
    }

    /// Whether the last channel is alpha.
    pub fn has_alpha(&self) -> (r: bool)
        ensures
            r == spec_has_alpha(self@.color),
    {
        self.color.has_alpha()
    }

    /// The image with `orientation` applied, so that it displays upright
    /// with no further metadata: an EXIF blob gets its `Orientation` tag
    /// reset to one in the same step. `Normal` returns the image untouched.
    pub fn apply_orientation(self, orientation: Orientation) -> (r: Image)
        ensures
            r@ == spec_apply(self@, orientation),
    {
        if orientation == Orientation::Normal {
            return self;
        }
        proof { use_type_invariant(&self); }
        let Image { width, height, color, samples, meta } = self;
        let Metadata { icc, exif, xmp } = meta;
        let exif = match exif {
            Some(mut e) => {
                reset_exif_orientation(e.as_mut_slice());
                Some(e)
            },
            None => None,
        };
        let (w, h, c) = (width as usize, height as usize, color.channels());
        let samples = match samples {
            Samples::U8(v) => Samples::U8(remap(v.as_slice(), orientation, w, h, c)),
            Samples::U16(v) => Samples::U16(remap(v.as_slice(), orientation, w, h, c)),
            Samples::F32(v) => Samples::F32(remap(v.as_slice(), orientation, w, h, c)),
        };
        let (ow, oh) = if orientation.swaps_axes() { (height, width) } else { (width, height) };
        proof {
            assert(ow * oh * c == w * h * c) by (nonlinear_arith)
                requires (ow == w && oh == h) || (ow == h && oh == w);
        }
        let out = Image { width: ow, height: oh, color, samples, meta: Metadata { icc, exif, xmp } };
        assert(out@.meta =~= spec_apply(self@, orientation).meta);
        out
    }

    /// Puts parts that already describe a valid picture back together.
    pub(crate) fn assemble(width: u32, height: u32, color: ColorType, samples: Samples, meta: Metadata) -> (r: Image)
        requires
            width > 0,
            height > 0,
            data_len(samples@) == width * height * spec_channels(color),
        ensures
            r@ == (ImageView { width, height, color, samples: samples@, meta: meta@ }),
    {
        Image { width, height, color, samples, meta }
    }

    /// Takes the image apart.
    pub fn into_parts(self) -> (r: (u32, u32, ColorType, Samples, Metadata))
        ensures
            image_wf(self@),
            r.0 == self@.width,
            r.1 == self@.height,
            r.2 == self@.color,
            r.3@ == self@.samples,
            r.4@ == self@.meta,
    {
        proof { use_type_invariant(&self); }
        let Image { width, height, color, samples, meta } = self;
        (width, height, color, samples, meta)
    }
}

/// A copy of a sample buffer.
fn copy_samples(s: &Samples) -> (r: Samples)
    ensures
        r@ == s@,
{
    match s {
        Samples::U8(v) => Samples::U8(vstd::slice::slice_to_vec(v.as_slice())),
        Samples::U16(v) => Samples::U16(vstd::slice::slice_to_vec(v.as_slice())),
        Samples::F32(v) => Samples::F32(vstd::slice::slice_to_vec(v.as_slice())),
    }
}

impl Clone for Image {
    fn clone(&self) -> (r: Image)
        ensures
            r@ == self@,
    {
        proof { use_type_invariant(self); }
        Image {
            width: self.width,
            height: self.height,
            color: self.color,
            samples: copy_samples(&self.samples),
            meta: copy_meta(&self.meta),
        }
    }
}

/// Appends `w` `x` `h`.
pub fn push_size(s: &mut String, w: u32, h: u32)
    ensures
        final(s)@ == old(s)@ + size_text(w, h),
{
    push_decimal(s, w as u64);
    push_str(s, "x");
    push_decimal(s, h as u64);
}

/// The name a layout is shown under in messages.
pub fn color_name(c: ColorType) -> (r: &'static str)
    ensures
        r@ == spec_color_name(c),
{
    match c {
        ColorType::Gray => "Gray",
        ColorType::GrayAlpha => "GrayAlpha",
        ColorType::Rgb => "Rgb",
        ColorType::Rgba => "Rgba",
    }
}

/// The image with 16-bit samples rounded to 8 bits; 8-bit and float
/// samples as they are.
pub open spec fn spec_to_u8(m: ImageView) -> ImageView {
    ImageView {
        samples: match m.samples {
            SampleData::U16(v) => SampleData::U8(narrowed(v)),
            other => other,
        },
        ..m
    }
}

/// The image with the alpha channel dropped, if it has one.
pub open spec fn spec_drop_alpha(m: ImageView) -> ImageView {
    if spec_has_alpha(m.color) {
        ImageView {
            color: spec_without_alpha(m.color),
            samples: data_without_last(m.samples, spec_channels(m.color) as int),
            ..m
        }
    } else {
        m
    }
}

fn narrow(v: &[u16]) -> (out: Vec<u8>)
    ensures
        out@ == narrowed(v@),
{
    let mut out: Vec<u8> = Vec::new();
    let mut i: usize = 0;
    while i < v.len()
        invariant
            i <= v@.len(),
            out@ == narrowed(v@).subrange(0, i as int),
        decreases v@.len() - i,
    {
        out.push(u16_to_u8(v[i]));
        i = i + 1;
        assert(out@ =~= narrowed(v@).subrange(0, i as int));
    }
    assert(out@ =~= narrowed(v@));
    out
}

impl Image {
    /// The image with 8-bit samples, borrowed when it already is; 16-bit
    /// samples are rounded to the nearest 8-bit value. Float samples are
    /// refused: mapping linear HDR into 8-bit sRGB needs a tone-mapping
    /// decision that has not been made.
    pub fn to_u8(&self, target: Format) -> (r: Result<std::borrow::Cow<'_, Image>, Error>)
        ensures
            match self@.samples {
                SampleData::U8(_) => r matches Ok(std::borrow::Cow::Borrowed(b)) && b@ == self@,
                SampleData::U16(_) => r matches Ok(std::borrow::Cow::Owned(c)) && c@ == spec_to_u8(self@),
                SampleData::F32(_) => r matches Err(Error::Unsupported { format, what })
                    && format == target && what@ == "float (HDR) samples"@,
            },
    {
        proof { use_type_invariant(self); }
        match &self.samples {
            Samples::U8(_) => Ok(std::borrow::Cow::Borrowed(self)),
            Samples::U16(v) => {
                let converted = narrow(v.as_slice());
                let img = Image {
                    width: self.width,
                    height: self.height,
                    color: self.color,
                    samples: Samples::U8(converted),
                    meta: copy_meta(&self.meta),
                };
                Ok(std::borrow::Cow::Owned(img))
            },
            Samples::F32(_) => {
                let mut what = String::new();
                push_str(&mut what, "float (HDR) samples");
                Err(Error::Unsupported { format: target, what })
            },
        }
    }

    /// The image with the alpha channel dropped, borrowed when there is
    /// none. Alpha is discarded, not composited: the colour values stay
    /// exactly as stored.
    pub fn without_alpha(&self) -> (r: std::borrow::Cow<'_, Image>)
        ensures
            r@ == spec_drop_alpha(self@),
            !spec_has_alpha(self@.color) ==> r matches std::borrow::Cow::Borrowed(_),
    {
        proof { use_type_invariant(self); }
        if !self.color.has_alpha() {
            return std::borrow::Cow::Borrowed(self);
        }
        let c = self.color.channels();
        proof {
            let px = self.width * self.height;
            lemma_fundamental_div_mod_converse(px * c, c as int, px, 0);
            assert(px * c == self.width * self.height * c) by (nonlinear_arith)
                requires px == self.width * self.height;
            assert(px * (c - 1) == self.width * self.height * (c - 1)) by (nonlinear_arith)
                requires px == self.width * self.height;
        }
        let samples = match &self.samples {
            Samples::U8(v) => Samples::U8(drop_last_channel(v.as_slice(), c)),
            Samples::U16(v) => Samples::U16(drop_last_channel(v.as_slice(), c)),
            Samples::F32(v) => Samples::F32(drop_last_channel(v.as_slice(), c)),
        };
        let img = Image {
            width: self.width,
            height: self.height,
            color: self.color.without_alpha(),
            samples,
            meta: copy_meta(&self.meta),
        };
        std::borrow::Cow::Owned(img)
    }
}

} // verus!
