//! The image formats the library knows, and what a sniff reports.

use vstd::prelude::*;
use crate::text::{chars_of, chars_eq, lower, lower_seq, spec_upper};

verus! {

/// Image formats the library knows about. Not every format has an encoder.
#[derive(Debug, Clone, Copy, PartialEq, Eq, Hash, Structural)]
#[non_exhaustive]
pub enum Format {
    /// JPEG.
    Jpeg,
    /// PNG.
    Png,
    /// WebP.
    WebP,
    /// AVIF.
    Avif,
    /// JPEG XL.
    Jxl,
    /// GIF.
    Gif,
    /// TIFF.
    Tiff,
    /// HEIC / HEIF.
    Heic,
    /// SVG (input only).
    Svg,
    /// OpenEXR (input only).
    Exr,
}

/// Canonical extension of each format, without the dot.
pub open spec fn spec_extension(f: Format) -> Seq<char> {
    match f {
        Format::Jpeg => seq!['j', 'p', 'g'],
        Format::Png => seq!['p', 'n', 'g'],
        Format::WebP => seq!['w', 'e', 'b', 'p'],
        Format::Avif => seq!['a', 'v', 'i', 'f'],
        Format::Jxl => seq!['j', 'x', 'l'],
        Format::Gif => seq!['g', 'i', 'f'],
        Format::Tiff => seq!['t', 'i', 'f', 'f'],
        Format::Heic => seq!['h', 'e', 'i', 'c'],
        Format::Svg => seq!['s', 'v', 'g'],
        Format::Exr => seq!['e', 'x', 'r'],
    }
}

/// MIME type of each format.
pub open spec fn spec_mime(f: Format) -> Seq<char> {
    match f {
        Format::Jpeg => "image/jpeg"@,
        Format::Png => "image/png"@,
        Format::WebP => "image/webp"@,
        Format::Avif => "image/avif"@,
        Format::Jxl => "image/jxl"@,
        Format::Gif => "image/gif"@,
        Format::Tiff => "image/tiff"@,
        Format::Heic => "image/heic"@,
        Format::Svg => "image/svg+xml"@,
        Format::Exr => "image/x-exr"@,
    }
}

/// Display name of each format.
pub open spec fn spec_display_name(f: Format) -> Seq<char> {
    match f {
        Format::Jpeg => "JPEG"@,
        Format::Png => "PNG"@,
        Format::WebP => "WebP"@,
        Format::Avif => "AVIF"@,
        Format::Jxl => "JPEG XL"@,
        Format::Gif => "GIF"@,
        Format::Tiff => "TIFF"@,
        Format::Heic => "HEIC"@,
        Format::Svg => "SVG"@,
        Format::Exr => "OpenEXR"@,
    }
}

/// A text with every leading `.` removed.
pub open spec fn strip_leading_dots(s: Seq<char>) -> Seq<char>
    decreases s.len(),
{
    if s.len() > 0 && s[0] == '.' {
        strip_leading_dots(s.drop_first())
    } else {
        s
    }
}

/// The format an extension or format name names, once leading dots are
/// dropped and ASCII case is folded.
pub open spec fn spec_from_extension(ext: Seq<char>) -> Option<Format> {
    let e = lower_seq(strip_leading_dots(ext));
    if e == seq!['j', 'p', 'g'] || e == seq!['j', 'p', 'e', 'g'] || e == seq!['j', 'p', 'e'] || e == seq!['j', 'f', 'i', 'f'] {
        Some(Format::Jpeg)
    } else if e == seq!['p', 'n', 'g'] {
        Some(Format::Png)
    } else if e == seq!['w', 'e', 'b', 'p'] {
        Some(Format::WebP)
    } else if e == seq!['a', 'v', 'i', 'f'] {
        Some(Format::Avif)
    } else if e == seq!['j', 'x', 'l'] {
        Some(Format::Jxl)
    } else if e == seq!['g', 'i', 'f'] {
        Some(Format::Gif)
    } else if e == seq!['t', 'i', 'f'] || e == seq!['t', 'i', 'f', 'f'] {
        Some(Format::Tiff)
    } else if e == seq!['h', 'e', 'i', 'c'] || e == seq!['h', 'e', 'i', 'f'] {
        Some(Format::Heic)
    } else if e == seq!['s', 'v', 'g'] {
        Some(Format::Svg)
    } else if e == seq!['e', 'x', 'r'] {
        Some(Format::Exr)
    } else {
        None
    }
}

/// Every format, in a stable order.
pub open spec fn spec_all_formats() -> Seq<Format> {
    seq![
        Format::Jpeg,
        Format::Png,
        Format::WebP,
        Format::Avif,
        Format::Jxl,
        Format::Gif,
        Format::Tiff,
        Format::Heic,
        Format::Svg,
        Format::Exr,
    ]
}

impl Format {
    /// Every format, in a stable order.
    pub const ALL: [Format; 10] = [
        Format::Jpeg,
        Format::Png,
        Format::WebP,
        Format::Avif,
        Format::Jxl,
        Format::Gif,
        Format::Tiff,
        Format::Heic,
        Format::Svg,
        Format::Exr,
    ];

    /// Canonical file extension, without the dot.
    pub fn extension(self) -> (r: &'static str)
        ensures
            r@ == spec_extension(self),
    {
        proof {
            reveal_strlit("jpg"); reveal_strlit("png"); reveal_strlit("webp"); reveal_strlit("avif");
            reveal_strlit("jxl"); reveal_strlit("gif"); reveal_strlit("tiff"); reveal_strlit("heic");
            reveal_strlit("svg"); reveal_strlit("exr");
        }
        match self {
            Format::Jpeg => "jpg",
            Format::Png => "png",
            Format::WebP => "webp",
            Format::Avif => "avif",
            Format::Jxl => "jxl",
            Format::Gif => "gif",
            Format::Tiff => "tiff",
            Format::Heic => "heic",
            Format::Svg => "svg",
            Format::Exr => "exr",
        }
    }

    /// MIME type.
    pub fn mime(self) -> (r: &'static str)
        ensures
            r@ == spec_mime(self),
    {
        match self {
            Format::Jpeg => "image/jpeg",
            Format::Png => "image/png",
            Format::WebP => "image/webp",
            Format::Avif => "image/avif",
            Format::Jxl => "image/jxl",
            Format::Gif => "image/gif",
            Format::Tiff => "image/tiff",
            Format::Heic => "image/heic",
            Format::Svg => "image/svg+xml",
            Format::Exr => "image/x-exr",
        }
    }

    /// The name the format is shown under in messages.
    pub fn display_name(self) -> (r: &'static str)
        ensures
            r@ == spec_display_name(self),
    {
        match self {
            Format::Jpeg => "JPEG",
            Format::Png => "PNG",
            Format::WebP => "WebP",
            Format::Avif => "AVIF",
            Format::Jxl => "JPEG XL",
            Format::Gif => "GIF",
            Format::Tiff => "TIFF",
            Format::Heic => "HEIC",
            Format::Svg => "SVG",
            Format::Exr => "OpenEXR",
        }
    }

    /// Parse a file extension or a format name, case-insensitively, with
    /// or without leading dots.
    pub fn from_extension(ext: &str) -> (r: Option<Format>)
        ensures
            r == spec_from_extension(ext@),
    {
        let cs = chars_of(ext);
        let n = cs.len();
        let mut start: usize = 0;
        assert(ext@.subrange(0, n as int) =~= ext@);
        while start < n && cs[start] == '.'
            invariant
                cs@ == ext@,
                n == cs@.len(),
                start <= n,
                strip_leading_dots(ext@) == strip_leading_dots(ext@.subrange(start as int, n as int)),
            decreases n - start,
        {
            let ghost rest = ext@.subrange(start as int, n as int);
            assert(rest.drop_first() =~= ext@.subrange(start + 1, n as int));
            start = start + 1;
        }
        let ghost rest = ext@.subrange(start as int, n as int);
        assert(strip_leading_dots(rest) == rest);
        let mut low: Vec<char> = Vec::new();
        let mut i: usize = start;
        while i < n
            invariant
                cs@ == ext@,
                n == cs@.len(),
                start <= i <= n,
                rest == ext@.subrange(start as int, n as int),
                low@ =~= lower_seq(rest).subrange(0, i - start),
            decreases n - i,
        {
            low.push(lower(cs[i]));
            i = i + 1;
        }
        assert(low@ =~= lower_seq(strip_leading_dots(ext@)));
        proof {
            reveal_strlit("jpg"); reveal_strlit("jpeg"); reveal_strlit("jpe"); reveal_strlit("jfif");
            reveal_strlit("png"); reveal_strlit("webp"); reveal_strlit("avif"); reveal_strlit("jxl");
            reveal_strlit("gif"); reveal_strlit("tif"); reveal_strlit("tiff"); reveal_strlit("heic");
            reveal_strlit("heif"); reveal_strlit("svg"); reveal_strlit("exr");
            assert("jpg"@ =~= seq!['j', 'p', 'g']); assert("jpeg"@ =~= seq!['j', 'p', 'e', 'g']);
            assert("jpe"@ =~= seq!['j', 'p', 'e']); assert("jfif"@ =~= seq!['j', 'f', 'i', 'f']);
            assert("png"@ =~= seq!['p', 'n', 'g']); assert("webp"@ =~= seq!['w', 'e', 'b', 'p']);
            assert("avif"@ =~= seq!['a', 'v', 'i', 'f']); assert("jxl"@ =~= seq!['j', 'x', 'l']);
            assert("gif"@ =~= seq!['g', 'i', 'f']); assert("tif"@ =~= seq!['t', 'i', 'f']);
            assert("tiff"@ =~= seq!['t', 'i', 'f', 'f']); assert("heic"@ =~= seq!['h', 'e', 'i', 'c']);
            assert("heif"@ =~= seq!['h', 'e', 'i', 'f']); assert("svg"@ =~= seq!['s', 'v', 'g']);
            assert("exr"@ =~= seq!['e', 'x', 'r']);
        }
        if chars_eq(&low, "jpg") || chars_eq(&low, "jpeg") || chars_eq(&low, "jpe") || chars_eq(&low, "jfif") {
            Some(Format::Jpeg)
        } else if chars_eq(&low, "png") {
            Some(Format::Png)
        } else if chars_eq(&low, "webp") {
            Some(Format::WebP)
        } else if chars_eq(&low, "avif") {
            Some(Format::Avif)
        } else if chars_eq(&low, "jxl") {
            Some(Format::Jxl)
        } else if chars_eq(&low, "gif") {
            Some(Format::Gif)
        } else if chars_eq(&low, "tif") || chars_eq(&low, "tiff") {
            Some(Format::Tiff)
        } else if chars_eq(&low, "heic") || chars_eq(&low, "heif") {
            Some(Format::Heic)
        } else if chars_eq(&low, "svg") {
            Some(Format::Svg)
        } else if chars_eq(&low, "exr") {
            Some(Format::Exr)
        } else {
            None
        }
    }

    /// Cargo features that provide an encoder for this format. Empty for
    /// input-only formats.
    pub fn encoder_features(self) -> (r: &'static [&'static str])
        ensures
            r@ == spec_encoder_features(self),
            r@.len() == spec_encoder_feature_count(self),
    {
        match self {
            Format::Jpeg => &["jpeg", "native-jpegli"],
            Format::Png => &["png"],
            Format::WebP => &["webp-lossless", "native-webp"],
            Format::Avif => &["avif", "native-avif"],
            Format::Jxl => &["native-jxl"],
            Format::Gif | Format::Tiff | Format::Heic | Format::Svg | Format::Exr => &[],
        }
    }
}

/// The Cargo features that provide a decoder for each format that the
/// portable tier cannot read.
pub open spec fn spec_decoder_features(f: Format) -> Seq<&'static str> {
    match f {
        Format::Heic => seq!["native-heif"],
        _ => Seq::empty(),
    }
}

impl Format {
    /// Cargo features that provide a decoder for this format, where the
    /// portable tier does not read it: the `available_in` list of
    /// [`crate::error::Error::DecoderUnavailable`].
    pub fn decoder_features(self) -> (r: &'static [&'static str])
        ensures
            r@ == spec_decoder_features(self),
    {
        match self {
            Format::Heic => &["native-heif"],
            _ => &[],
        }
    }
}

/// The Cargo features that provide an encoder for each format, portable
/// ones first.
pub open spec fn spec_encoder_features(f: Format) -> Seq<&'static str> {
    match f {
        Format::Jpeg => seq!["jpeg", "native-jpegli"],
        Format::Png => seq!["png"],
        Format::WebP => seq!["webp-lossless", "native-webp"],
        Format::Avif => seq!["avif", "native-avif"],
        Format::Jxl => seq!["native-jxl"],
        _ => Seq::empty(),
    }
}

/// How many features provide an encoder for each format.
pub open spec fn spec_encoder_feature_count(f: Format) -> nat {
    match f {
        Format::Jpeg => 2,
        Format::Png => 1,
        Format::WebP => 2,
        Format::Avif => 2,
        Format::Jxl => 1,
        _ => 0,
    }
}

/// What a sniff detected.
#[derive(Debug, Clone, Copy, PartialEq, Eq, Structural)]
pub struct FormatInfo {
    /// Container format.
    pub format: Format,
    /// Whether the file has more than one frame.
    pub animated: bool,
}

/// Backend tier, mirroring the feature groups.
#[derive(Debug, Clone, Copy, PartialEq, Eq, Hash, Structural)]
pub enum Tier {
    /// Pure Rust, permissive licence. Always available.
    Portable,
    /// C binding. Opt-in feature.
    Native,
    /// Pure Rust under AGPL. Never a default dependency.
    Agpl,
}

impl Tier {
    /// The tier's name as listings print it.
    pub fn name(self) -> (r: &'static str)
        ensures
            r@ == (match self {
                Tier::Portable => "portable"@,
                Tier::Native => "native"@,
                Tier::Agpl => "agpl"@,
            }),
    {
        match self {
            Tier::Portable => "portable",
            Tier::Native => "native",
            Tier::Agpl => "agpl",
        }
    }
}

/// One backend-specific option an encoder accepts.
#[derive(Debug, Clone, Copy, PartialEq, Eq)]
pub struct CodecOption {
    /// Key without the `codec:` prefix.
    pub key: &'static str,
    /// Value the backend uses when the option is not set.
    pub default: &'static str,
    /// One line on what it does.
    pub help: &'static str,
}

/// Static description of what a decoder can do.
#[derive(Debug, Clone, PartialEq, Eq)]
pub struct DecoderCaps {
    /// Input format.
    pub format: Format,
    /// Backend crate, as listings name it.
    pub name: &'static str,
    /// Reads every frame of an animated file, not just the first.
    pub animation: bool,
    /// Which tier this backend belongs to.
    pub tier: Tier,
}

/// Static description of what an encoder can do. The backend's own
/// quality scale is left out: it is a float range that only the backend
/// reads.
#[derive(Debug, Clone, PartialEq, Eq)]
pub struct EncoderCaps {
    /// Output format.
    pub format: Format,
    /// Backend crate, as listings name it.
    pub name: &'static str,
    /// Supports lossy output.
    pub lossy: bool,
    /// Supports lossless output.
    pub lossless: bool,
    /// Supports an alpha channel.
    pub alpha: bool,
    /// Supports animation.
    pub animation: bool,
    /// Bit depths this encoder accepts.
    pub bit_depth: &'static [u8],
    /// Accepts HDR / float input.
    pub hdr: bool,
    /// Lowest value of the backend's effort knob.
    pub effort_min: u8,
    /// Highest value of the backend's effort knob.
    pub effort_max: u8,
    /// Can embed EXIF under `--keep-metadata`.
    pub exif: bool,
    /// Can embed XMP under `--keep-metadata`.
    pub xmp: bool,
    /// Which tier this backend belongs to.
    pub tier: Tier,
    /// Every backend-specific key this backend accepts.
    pub options: &'static [CodecOption],
}

/// A lower-case word is its own lower-case form, has no leading dot, and
/// reads the same upper-cased behind one dot.
proof fn lemma_word(e: Seq<char>)
    requires
        e.len() > 0,
        forall|i: int| 0 <= i < e.len() ==> 'a' <= #[trigger] e[i] && e[i] <= 'z',
    ensures
        spec_from_extension(e) == spec_from_extension(seq!['.'] + e.map_values(|c: char| spec_upper(c))),
        lower_seq(strip_leading_dots(e)) == e,
{
    assert(strip_leading_dots(e) == e);
    assert(lower_seq(e) =~= e);
    let up = e.map_values(|c: char| spec_upper(c));
    let u = seq!['.'] + up;
    assert(u.drop_first() =~= up);
    assert(strip_leading_dots(up) == up);
    assert(lower_seq(up) =~= e);
}

/// Exactly the input-only formats have no encoder features to name.
pub proof fn lemma_input_only_formats_have_no_encoder(f: Format)
    ensures
        (spec_encoder_features(f).len() == 0) == (f == Format::Gif || f == Format::Tiff || f == Format::Heic
            || f == Format::Svg || f == Format::Exr),
{
}

/// Reading an extension back gives the format it came from, in any case
/// and behind a leading dot.
pub proof fn lemma_extension_round_trips(f: Format)
    ensures
        spec_from_extension(spec_extension(f)) == Some(f),
        spec_from_extension(seq!['.'] + spec_extension(f).map_values(|c: char| spec_upper(c)))
            == Some(f),
{
    match f {
        Format::Jpeg => {
            let e = seq!['j', 'p', 'g'];
            assert(e[0] == 'j'); assert(e[1] == 'p'); assert(e[2] == 'g');
            lemma_word(e);
        },
        Format::Png => {
            let e = seq!['p', 'n', 'g'];
            assert(e[0] == 'p'); assert(e[1] == 'n'); assert(e[2] == 'g');
            lemma_word(e);
        },
        Format::WebP => {
            let e = seq!['w', 'e', 'b', 'p'];
            assert(e[0] == 'w'); assert(e[1] == 'e'); assert(e[2] == 'b'); assert(e[3] == 'p');
            lemma_word(e);
        },
        Format::Avif => {
            let e = seq!['a', 'v', 'i', 'f'];
            assert(e[0] == 'a'); assert(e[1] == 'v'); assert(e[2] == 'i'); assert(e[3] == 'f');
            lemma_word(e);
        },
        Format::Jxl => {
            let e = seq!['j', 'x', 'l'];
            assert(e[0] == 'j'); assert(e[1] == 'x'); assert(e[2] == 'l');
            lemma_word(e);
        },
        Format::Gif => {
            let e = seq!['g', 'i', 'f'];
            assert(e[0] == 'g'); assert(e[1] == 'i'); assert(e[2] == 'f');
            lemma_word(e);
        },
        Format::Tiff => {
            let e = seq!['t', 'i', 'f', 'f'];
            assert(e[0] == 't'); assert(e[1] == 'i'); assert(e[2] == 'f'); assert(e[3] == 'f');
            lemma_word(e);
        },
        Format::Heic => {
            let e = seq!['h', 'e', 'i', 'c'];
            assert(e[0] == 'h'); assert(e[1] == 'e'); assert(e[2] == 'i'); assert(e[3] == 'c');
            lemma_word(e);
        },
        Format::Svg => {
            let e = seq!['s', 'v', 'g'];
            assert(e[0] == 's'); assert(e[1] == 'v'); assert(e[2] == 'g');
            lemma_word(e);
        },
        Format::Exr => {
            let e = seq!['e', 'x', 'r'];
            assert(e[0] == 'e'); assert(e[1] == 'x'); assert(e[2] == 'r');
            lemma_word(e);
        },
    }
}

} // verus!
