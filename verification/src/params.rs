//! Codec-agnostic parameters: presets, the resize geometry and the
//! decoder's pixel limit.

use vstd::prelude::*;
use crate::error::Error;
use crate::text::{eq_ignore_ascii_case, lower_seq, spec_upper};

verus! {

/// Chroma subsampling for codecs that have it.
#[derive(Debug, Clone, Copy, PartialEq, Eq, Hash, Structural)]
pub enum Subsampling {
    /// Let the backend choose from the quality level.
    Auto,
    /// No chroma subsampling.
    S444,
    /// Horizontal subsampling.
    S422,
    /// Horizontal and vertical subsampling.
    S420,
}

impl Default for Subsampling {
    /// The backend chooses.
    fn default() -> (r: Subsampling)
        ensures
            r == Subsampling::Auto,
    {
        Subsampling::Auto
    }
}

/// A named bundle of settings: a target plus an effort, and for
/// `thumbnail` a resize.
#[derive(Debug, Clone, Copy, PartialEq, Eq, Hash, Structural)]
pub enum Preset {
    /// Target 70, effort 6. The default.
    Web,
    /// Target 60, effort 6, fit inside 512 x 512.
    Thumbnail,
    /// Target 85, effort 8.
    Archive,
    /// Lossless, effort 8.
    Lossless,
}

impl Default for Preset {
    /// `web`.
    fn default() -> (r: Preset)
        ensures
            r == Preset::Web,
    {
        Preset::Web
    }
}

/// The name the command line spells a preset with.
pub open spec fn spec_preset_name(p: Preset) -> Seq<char> {
    match p {
        Preset::Web => "web"@,
        Preset::Thumbnail => "thumbnail"@,
        Preset::Archive => "archive"@,
        Preset::Lossless => "lossless"@,
    }
}

/// Every preset, in a stable order.
pub open spec fn spec_all_presets() -> Seq<Preset> {
    seq![Preset::Web, Preset::Thumbnail, Preset::Archive, Preset::Lossless]
}

/// The first preset, in the stable order, whose name matches `name` up to
/// ASCII case.
pub open spec fn spec_preset_from_name(name: Seq<char>) -> Option<Preset> {
    let l = lower_seq(name);
    if l == lower_seq(spec_preset_name(Preset::Web)) {
        Some(Preset::Web)
    } else if l == lower_seq(spec_preset_name(Preset::Thumbnail)) {
        Some(Preset::Thumbnail)
    } else if l == lower_seq(spec_preset_name(Preset::Archive)) {
        Some(Preset::Archive)
    } else if l == lower_seq(spec_preset_name(Preset::Lossless)) {
        Some(Preset::Lossless)
    } else {
        None
    }
}

/// The resize each preset stands for: only `thumbnail` has bounds.
pub open spec fn spec_preset_resize(p: Preset) -> Resize {
    match p {
        Preset::Thumbnail => Resize { max_width: Some(512), max_height: Some(512) },
        _ => Resize { max_width: None, max_height: None },
    }
}

impl Preset {
    /// Every preset, in a stable order.
    pub const ALL: &'static [Preset; 4] = &[Preset::Web, Preset::Thumbnail, Preset::Archive, Preset::Lossless];

    /// The box the `thumbnail` preset fits into: a 256 px slot on a 2x
    /// display.
    pub const THUMBNAIL_EDGE: u32 = 512;

    /// The preset's name as the command line spells it.
    pub fn name(self) -> (r: &'static str)
        ensures
            r@ == spec_preset_name(self),
    {
        match self {
            Preset::Web => "web",
            Preset::Thumbnail => "thumbnail",
            Preset::Archive => "archive",
            Preset::Lossless => "lossless",
        }
    }

    /// Parses a preset name, case-insensitively.
    pub fn from_name(name: &str) -> (r: Option<Preset>)
        ensures
            r == spec_preset_from_name(name@),
    {
        if eq_ignore_ascii_case(Preset::Web.name(), name) {
            Some(Preset::Web)
        } else if eq_ignore_ascii_case(Preset::Thumbnail.name(), name) {
            Some(Preset::Thumbnail)
        } else if eq_ignore_ascii_case(Preset::Archive.name(), name) {
            Some(Preset::Archive)
        } else if eq_ignore_ascii_case(Preset::Lossless.name(), name) {
            Some(Preset::Lossless)
        } else {
            None
        }
    }

    /// The resize this preset stands for. Only `thumbnail` has one: fit
    /// inside `Preset::THUMBNAIL_EDGE` pixels on both axes.
    pub fn resize(self) -> (r: Resize)
        ensures
            r == spec_preset_resize(self),
    {
        match self {
            Preset::Thumbnail => Resize {
                max_width: Some(Preset::THUMBNAIL_EDGE),
                max_height: Some(Preset::THUMBNAIL_EDGE),
            },
            Preset::Web | Preset::Archive | Preset::Lossless => Resize::none(),
        }
    }
}

/// Reading a preset's name back, in its own case or upper-cased, gives the
/// preset.
pub proof fn lemma_preset_names_round_trip(p: Preset)
    ensures
        spec_preset_from_name(spec_preset_name(p)) == Some(p),
        spec_preset_from_name(spec_preset_name(p).map_values(|c: char| spec_upper(c))) == Some(p),
{
    reveal_strlit("web");
    reveal_strlit("thumbnail");
    reveal_strlit("archive");
    reveal_strlit("lossless");
    let names = seq![spec_preset_name(Preset::Web), spec_preset_name(Preset::Thumbnail),
        spec_preset_name(Preset::Archive), spec_preset_name(Preset::Lossless)];
    assert forall|j: int| 0 <= j < 4 implies #[trigger] lower_seq(names[j]) == names[j]
        && lower_seq(names[j].map_values(|c: char| spec_upper(c))) == names[j] by {
        assert(lower_seq(names[j]) =~= names[j]);
        assert(lower_seq(names[j].map_values(|c: char| spec_upper(c))) =~= names[j]);
    }
    assert(lower_seq(names[0]) == names[0]);
    assert(lower_seq(names[1]) == names[1]);
    assert(lower_seq(names[2]) == names[2]);
    assert(lower_seq(names[3]) == names[3]);
    assert(names[0].len() == 3 && names[2].len() == 7 && names[1].len() == 9 && names[3].len() == 8);
}

/// Bounds for the resize stage: fit inside, keep the aspect ratio, never
/// enlarge. This is the geometry only.
#[derive(Debug, Clone, Copy, PartialEq, Eq, Hash, Default, Structural)]
pub struct Resize {
    /// Widest output allowed, in pixels.
    pub max_width: Option<u32>,
    /// Tallest output allowed, in pixels.
    pub max_height: Option<u32>,
}

/// The bound on one axis of `full` pixels: the bound itself, read as at
/// least one and at most `full`; `full` when there is none.
pub open spec fn axis_bound(max: Option<u32>, full: int) -> int {
    match max {
        None => full,
        Some(m) => {
            let m1 = if m == 0 { 1int } else { m as int };
            if m1 < full { m1 } else { full }
        },
    }
}

/// `x` divided by `d`, rounded to the nearest integer, halves up; at
/// least one.
pub open spec fn rounded_ratio(x: int, d: int) -> int {
    let q = (x + d / 2) / d;
    if q < 1 { 1 } else { q }
}

/// The size a `width` x `height` image is scaled to under `r`, or `None`
/// when it already fits. The tighter bound decides the scale and the other
/// axis is rounded to the nearest pixel, never below one.
pub open spec fn spec_fit(r: Resize, width: u32, height: u32) -> Option<(u32, u32)> {
    let w = if width == 0 { 1int } else { width as int };
    let h = if height == 0 { 1int } else { height as int };
    let mw = axis_bound(r.max_width, w);
    let mh = axis_bound(r.max_height, h);
    if mw == w && mh == h {
        None
    } else if mw * h <= mh * w {
        Some((mw as u32, rounded_ratio(h * mw, w) as u32))
    } else {
        Some((rounded_ratio(w * mh, h) as u32, mh as u32))
    }
}

impl Resize {
    /// No bounds: every image passes through untouched.
    pub fn none() -> (r: Resize)
        ensures
            r == (Resize { max_width: None, max_height: None }),
    {
        Resize { max_width: None, max_height: None }
    }

    /// The size a `width` x `height` image is scaled to, or `None` when it
    /// already fits and is left alone. A bound of zero is read as one.
    pub fn fit(&self, width: u32, height: u32) -> (r: Option<(u32, u32)>)
        ensures
            r == spec_fit(*self, width, height),
    {
        let w: u64 = if width == 0 { 1 } else { width as u64 };
        let h: u64 = if height == 0 { 1 } else { height as u64 };
        let mw = bound(self.max_width, w);
        let mh = bound(self.max_height, h);
        if mw == w && mh == h {
            return None;
        }
        proof {
            lemma_fit_fits(w as int, h as int, mw as int, mh as int);
        }
        if mw * h <= mh * w {
            let q = (h * mw + w / 2) / w;
            let out_h = if q < 1 { 1 } else { q };
            Some((mw as u32, out_h as u32))
        } else {
            let q = (w * mh + h / 2) / h;
            let out_w = if q < 1 { 1 } else { q };
            Some((out_w as u32, mh as u32))
        }
    }
}

/// The bound on one axis of `full` pixels.
fn bound(max: Option<u32>, full: u64) -> (r: u64)
    requires
        1 <= full <= u32::MAX,
    ensures
        r == axis_bound(max, full as int),
        1 <= r <= full,
{
    match max {
        None => full,
        Some(m) => {
            let m1: u64 = if m == 0 { 1 } else { m as u64 };
            if m1 < full { m1 } else { full }
        },
    }
}

/// The rounded axis never passes its own bound: the exact value is at most
/// that bound, an integer.
proof fn lemma_fit_fits(w: int, h: int, mw: int, mh: int)
    requires
        1 <= mw <= w <= u32::MAX,
        1 <= mh <= h <= u32::MAX,
    ensures
        mw * h <= u64::MAX,
        mh * w <= u64::MAX,
        h * mw + w / 2 <= u64::MAX,
        w * mh + h / 2 <= u64::MAX,
        mw * h <= mh * w ==> 1 <= rounded_ratio(h * mw, w) <= mh,
        !(mw * h <= mh * w) ==> 1 <= rounded_ratio(w * mh, h) <= mw,
{
    assert(mw * h <= u32::MAX * u32::MAX) by (nonlinear_arith)
        requires 1 <= mw <= u32::MAX, 1 <= h <= u32::MAX;
    assert(mh * w <= u32::MAX * u32::MAX) by (nonlinear_arith)
        requires 1 <= mh <= u32::MAX, 1 <= w <= u32::MAX;
    assert(h * mw == mw * h) by (nonlinear_arith);
    assert(w * mh == mh * w) by (nonlinear_arith);
    if mw * h <= mh * w {
        assert((h * mw + w / 2) / w <= mh) by (nonlinear_arith)
            requires h * mw <= mh * w, w >= 1, mh >= 1;
    } else {
        assert((w * mh + h / 2) / h <= mw) by (nonlinear_arith)
            requires w * mh < mw * h, h >= 1, mw >= 1;
    }
}

/// Fitting never enlarges: a resized image is no larger than the input on
/// either axis, stays within both bounds (a zero bound read as one), and
/// keeps at least one pixel on each.
pub proof fn lemma_fit_never_enlarges(r: Resize, width: u32, height: u32)
    ensures
        match spec_fit(r, width, height) {
            None => axis_bound(r.max_width, if width == 0 { 1int } else { width as int })
                == (if width == 0 { 1int } else { width as int }) && axis_bound(
                r.max_height,
                if height == 0 { 1int } else { height as int },
            ) == (if height == 0 { 1int } else { height as int }),
            Some((ow, oh)) => {
                &&& 1 <= ow && ow as int <= axis_bound(r.max_width, if width == 0 { 1int } else { width as int })
                &&& 1 <= oh && oh as int <= axis_bound(r.max_height, if height == 0 { 1int } else { height as int })
                &&& ow as int <= (if width == 0 { 1int } else { width as int })
                &&& oh as int <= (if height == 0 { 1int } else { height as int })
            },
        },
{
    let w = if width == 0 { 1int } else { width as int };
    let h = if height == 0 { 1int } else { height as int };
    let mw = axis_bound(r.max_width, w);
    let mh = axis_bound(r.max_height, h);
    if !(mw == w && mh == h) {
        lemma_fit_fits(w, h, mw, mh);
    }
}

/// Options passed to a decoder.
#[derive(Debug, Clone, PartialEq, Eq, Structural)]
pub struct DecodeOpts {
    /// Refuse images above this many pixels: the guard against
    /// decompression bombs.
    pub max_pixels: u64,
    /// Apply EXIF orientation.
    pub apply_orientation: bool,
}

impl Default for DecodeOpts {
    /// A limit of 2^28 pixels, orientation applied.
    fn default() -> (r: DecodeOpts)
        ensures
            r == (DecodeOpts { max_pixels: 268_435_456, apply_orientation: true }),
    {
        DecodeOpts { max_pixels: 268_435_456, apply_orientation: true }
    }
}

impl DecodeOpts {
    /// Checks header dimensions against `max_pixels` before allocating:
    /// `TooLarge` above the limit.
    pub fn check_pixels(&self, width: u32, height: u32) -> (r: Result<(), Error>)
        ensures
            width * height <= self.max_pixels ==> r is Ok,
            width * height > self.max_pixels ==> (r matches Err(Error::TooLarge { pixels, limit })
                && pixels == width * height && limit == self.max_pixels),
    {
        proof {
            assert(width * height <= u32::MAX * u32::MAX) by (nonlinear_arith)
                requires width <= u32::MAX, height <= u32::MAX;
        }
        let pixels = (width as u64) * (height as u64);
        if pixels > self.max_pixels {
            return Err(Error::TooLarge { pixels, limit: self.max_pixels });
        }
        Ok(())
    }
}

} // verus!
