//! The argument values the command line parses itself: the colour switch,
//! the preset and subsampling names, the output formats, and pixel counts
//! with a `k`, `M` or `G` suffix.

use vstd::prelude::*;
use crate::format::{Format, spec_from_extension, spec_display_name, spec_extension};
use crate::params::{Preset, Subsampling};
use crate::text::{chars_of, push_str, parse_uint, spec_parse_uint, str_eq};

verus! {

/// `auto` / `always` / `never`.
#[derive(Debug, Clone, Copy, PartialEq, Eq, Structural)]
pub enum When {
    /// Decide from whether stderr is a terminal.
    Auto,
    /// On.
    Always,
    /// Off.
    Never,
}

impl When {
    /// Resolves against the terminal check, which only `Auto` consults.
    pub fn resolve<F: FnOnce() -> bool>(self, is_terminal: F) -> (r: bool)
        requires
            self == When::Auto ==> is_terminal.requires(()),
        ensures
            self == When::Always ==> r,
            self == When::Never ==> !r,
            self == When::Auto ==> is_terminal.ensures((), r),
    {
        match self {
            When::Auto => is_terminal(),
            When::Always => true,
            When::Never => false,
        }
    }
}

/// `--preset` values, mirroring [`Preset`].
#[derive(Debug, Clone, Copy, PartialEq, Eq, Structural)]
pub enum PresetArg {
    /// Target 70, effort 6.
    Web,
    /// Target 60, effort 6, fit inside 512 x 512.
    Thumbnail,
    /// Target 85, effort 8.
    Archive,
    /// Lossless, effort 8.
    Lossless,
}

impl From<PresetArg> for Preset {
    fn from(p: PresetArg) -> (r: Preset) {
        match p {
            PresetArg::Web => Preset::Web,
            PresetArg::Thumbnail => Preset::Thumbnail,
            PresetArg::Archive => Preset::Archive,
            PresetArg::Lossless => Preset::Lossless,
        }
    }
}

impl vstd::std_specs::convert::FromSpecImpl<PresetArg> for Preset {
    open spec fn obeys_from_spec() -> bool {
        true
    }

    open spec fn from_spec(p: PresetArg) -> Preset {
        match p {
            PresetArg::Web => Preset::Web,
            PresetArg::Thumbnail => Preset::Thumbnail,
            PresetArg::Archive => Preset::Archive,
            PresetArg::Lossless => Preset::Lossless,
        }
    }
}

/// `--subsampling` values, mirroring [`Subsampling`].
#[derive(Debug, Clone, Copy, PartialEq, Eq, Structural)]
pub enum SubsamplingArg {
    /// The backend decides from the quality.
    Auto,
    /// No chroma subsampling.
    S444,
    /// Horizontal subsampling.
    S422,
    /// Horizontal and vertical subsampling.
    S420,
}

impl From<SubsamplingArg> for Subsampling {
    fn from(s: SubsamplingArg) -> (r: Subsampling) {
        match s {
            SubsamplingArg::Auto => Subsampling::Auto,
            SubsamplingArg::S444 => Subsampling::S444,
            SubsamplingArg::S422 => Subsampling::S422,
            SubsamplingArg::S420 => Subsampling::S420,
        }
    }
}

impl vstd::std_specs::convert::FromSpecImpl<SubsamplingArg> for Subsampling {
    open spec fn obeys_from_spec() -> bool {
        true
    }

    open spec fn from_spec(s: SubsamplingArg) -> Subsampling {
        match s {
            SubsamplingArg::Auto => Subsampling::Auto,
            SubsamplingArg::S444 => Subsampling::S444,
            SubsamplingArg::S422 => Subsampling::S422,
            SubsamplingArg::S420 => Subsampling::S420,
        }
    }
}

/// Formats with an encoder in some build, as `-f` spells them.
pub const OUTPUT_FORMATS: &'static [Format; 5] = &[Format::Jpeg, Format::Png, Format::WebP, Format::Avif, Format::Jxl];

/// Whether a format has an encoder in some build.
pub open spec fn is_output_format(f: Format) -> bool {
    f == Format::Jpeg || f == Format::Png || f == Format::WebP || f == Format::Avif || f == Format::Jxl
}

/// The name `-f` and `--codec-opt` use for a format: `jpeg`, else the
/// extension.
pub open spec fn spec_format_name(f: Format) -> Seq<char> {
    if f == Format::Jpeg { "jpeg"@ } else { spec_extension(f) }
}

/// The name `-f` and `--codec-opt` use for a format.
pub fn format_name(f: Format) -> (r: &'static str)
    ensures
        r@ == spec_format_name(f),
{
    match f {
        Format::Jpeg => "jpeg",
        other => other.extension(),
    }
}

/// The output formats, listed for a message.
pub open spec fn output_names() -> Seq<char> {
    "jpeg, png, webp, avif, jxl"@
}

/// What `-f` makes of a value: an output format by name or extension, or
/// why not.
pub open spec fn spec_parse_format(s: Seq<char>) -> Result<Format, Seq<char>> {
    match spec_from_extension(s) {
        Some(f) => if is_output_format(f) {
            Ok(f)
        } else {
            Err(spec_display_name(f) + " is an input format only; one of "@ + output_names())
        },
        None => Err("unknown format `"@ + s + "`; one of "@ + output_names()),
    }
}

/// Parses a `-f` value.
pub fn parse_format(s: &str) -> (r: Result<Format, String>)
    ensures
        match spec_parse_format(s@) {
            Ok(f) => r == Ok::<Format, String>(f),
            Err(m) => r matches Err(e) && e@ == m,
        },
{
    match Format::from_extension(s) {
        Some(f) => if f == Format::Jpeg || f == Format::Png || f == Format::WebP || f == Format::Avif || f
            == Format::Jxl {
            Ok(f)
        } else {
            let mut m = String::new();
            push_str(&mut m, f.display_name());
            push_str(&mut m, " is an input format only; one of ");
            push_str(&mut m, "jpeg, png, webp, avif, jxl");
            Err(m)
        },
        None => {
            let mut m = String::new();
            push_str(&mut m, "unknown format `");
            push_str(&mut m, s);
            push_str(&mut m, "`; one of ");
            push_str(&mut m, "jpeg, png, webp, avif, jxl");
            Err(m)
        },
    }
}

/// Whether a character is one of the pixel-count suffixes.
pub open spec fn is_suffix_char(c: char) -> bool {
    c == 'k' || c == 'K' || c == 'm' || c == 'M' || c == 'g' || c == 'G'
}

/// How many suffix characters the text ends with.
pub open spec fn suffix_run(s: Seq<char>) -> nat
    decreases s.len(),
{
    if s.len() > 0 && is_suffix_char(s.last()) { suffix_run(s.drop_last()) + 1 } else { 0 }
}

/// The factor the last character names: thousand for `k`, million for
/// `m`, billion otherwise, either case.
pub open spec fn suffix_factor(c: char) -> int {
    if c == 'k' || c == 'K' {
        1_000
    } else if c == 'm' || c == 'M' {
        1_000_000
    } else {
        1_000_000_000
    }
}

/// A pixel count: digits with every trailing suffix letter trimmed, times
/// the factor the last letter names; refused when it does not parse, is
/// zero or does not fit.
pub open spec fn spec_parse_pixels(s: Seq<char>) -> Result<u64, Seq<char>> {
    let k = suffix_run(s);
    let digits = s.subrange(0, s.len() - k);
    let factor = if k == 0 { 1 } else { suffix_factor(s.last()) };
    match spec_parse_uint(digits, u64::MAX as int) {
        None => Err("`"@ + s + "` is not a pixel count; try 268M"@),
        Some(n) => if n * factor > u64::MAX || n * factor == 0 {
            Err("`"@ + s + "` is out of range"@)
        } else {
            Ok((n * factor) as u64)
        },
    }
}

proof fn lemma_suffix_run_bound(s: Seq<char>)
    ensures
        suffix_run(s) <= s.len(),
    decreases s.len(),
{
    if s.len() > 0 && is_suffix_char(s.last()) {
        lemma_suffix_run_bound(s.drop_last());
    }
}

/// Parses `--max-pixels`.
pub fn parse_pixels(s: &str) -> (r: Result<u64, String>)
    ensures
        match spec_parse_pixels(s@) {
            Ok(n) => r == Ok::<u64, String>(n),
            Err(m) => r matches Err(e) && e@ == m,
        },
{
    let cs = chars_of(s);
    let n = cs.len();
    let mut end = n;
    proof { lemma_suffix_run_bound(s@); }
    assert(s@.subrange(0, n as int) =~= s@);
    while end > 0 && (cs[end - 1] == 'k' || cs[end - 1] == 'K' || cs[end - 1] == 'm' || cs[end - 1] == 'M'
        || cs[end - 1] == 'g' || cs[end - 1] == 'G')
        invariant
            cs@ == s@,
            n == s@.len(),
            end <= n,
            suffix_run(s@) == suffix_run(s@.subrange(0, end as int)) + (n - end),
        decreases end,
    {
        assert(s@.subrange(0, end as int).drop_last() =~= s@.subrange(0, end - 1));
        end = end - 1;
    }
    proof {
        if end > 0 {
            assert(!is_suffix_char(s@.subrange(0, end as int).last()));
        }
        assert(suffix_run(s@.subrange(0, end as int)) == 0);
    }
    let factor: u64 = if end == n {
        1
    } else {
        let c = cs[n - 1];
        if c == 'k' || c == 'K' {
            1_000
        } else if c == 'm' || c == 'M' {
            1_000_000
        } else {
            1_000_000_000
        }
    };
    let digits = vstd::slice::slice_subrange(cs.as_slice(), 0, end);
    match parse_uint(digits, u64::MAX) {
        None => {
            let mut m = String::new();
            push_str(&mut m, "`");
            push_str(&mut m, s);
            push_str(&mut m, "` is not a pixel count; try 268M");
            Err(m)
        },
        Some(v) => match v.checked_mul(factor) {
            Some(p) => if p > 0 {
                Ok(p)
            } else {
                let mut m = String::new();
                push_str(&mut m, "`");
                push_str(&mut m, s);
                push_str(&mut m, "` is out of range");
                Err(m)
            },
            None => {
                let mut m = String::new();
                push_str(&mut m, "`");
                push_str(&mut m, s);
                push_str(&mut m, "` is out of range");
                Err(m)
            },
        },
    }
}

/// What a `--color` value does to the setting so far: `always` and
/// `never` take over, anything else leaves it.
pub open spec fn color_value(w: When, v: Option<Seq<char>>) -> When {
    match v {
        Some(t) => if t == "always"@ { When::Always } else if t == "never"@ { When::Never } else { w },
        None => w,
    }
}

/// The `--color` setting after the arguments from `i` on, starting from
/// `w`: `--color VALUE` takes the next argument as its value, whatever it
/// is, and `--color=VALUE` carries it; the last one wins.
pub open spec fn color_scan(argv: Seq<Seq<char>>, i: int, w: When) -> When
    decreases argv.len() + 1 - i,
{
    if i < 0 || i >= argv.len() {
        w
    } else if argv[i] == "--color"@ {
        let v = if i + 1 < argv.len() { Some(argv[i + 1]) } else { None };
        color_scan(argv, i + 2, color_value(w, v))
    } else if argv[i].len() >= 8 && argv[i].subrange(0, 8) == "--color="@ {
        color_scan(argv, i + 1, color_value(w, Some(argv[i].skip(8))))
    } else {
        color_scan(argv, i + 1, w)
    }
}

/// The `--color` setting for the program's own output, scanned before
/// the arguments are parsed: the last `--color` value that is `always` or
/// `never`, else `Auto`. The program then reads `NO_COLOR` for `Auto`.
pub fn color_when(argv: &[String]) -> (r: When)
    ensures
        r == color_scan(argv@.map_values(|a: String| a@), 0, When::Auto),
{
    let ghost args = argv@.map_values(|a: String| a@);
    let mut w = When::Auto;
    let mut i: usize = 0;
    while i < argv.len()
        invariant
            args == argv@.map_values(|a: String| a@),
            i <= argv@.len(),
            color_scan(args, i as int, w) == color_scan(args, 0, When::Auto),
        decreases argv@.len() - i,
    {
        let a = argv[i].as_str();
        let ghost w0 = w;
        let ghost i0 = i as int;
        assert(a@ == args[i as int]);
        let v: Option<&str> = if str_eq(a, "--color") {
            if i + 1 < argv.len() {
                assert(argv[i + 1]@ == args[i + 1]);
                Some(argv[i + 1].as_str())
            } else {
                None
            }
        } else if a.unicode_len() >= 8 && str_eq(a.substring_char(0, 8), "--color=") {
            Some(a.substring_char(8, a.unicode_len()))
        } else {
            None
        };
        match v {
            Some(t) => {
                if str_eq(t, "always") {
                    w = When::Always;
                } else if str_eq(t, "never") {
                    w = When::Never;
                }
            },
            None => {},
        }
        if str_eq(a, "--color") && i + 1 < argv.len() {
            i = i + 2;
            assert(color_scan(args, i0, w0) == color_scan(args, i as int, w));
        } else if str_eq(a, "--color") {
            i = i + 1;
            assert(color_scan(args, i0 + 2, w) == w);
            assert(color_scan(args, i0, w0) == color_scan(args, i as int, w));
        } else {
            assert(a@.len() >= 8 && a@.subrange(0, 8) == "--color="@ ==> a@.subrange(8, a@.len() as int) =~= a@.skip(8));
            i = i + 1;
            assert(color_scan(args, i0, w0) == color_scan(args, i as int, w));
        }
    }
    w
}

} // verus!
