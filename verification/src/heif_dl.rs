//! The parts of the runtime-loaded `libheif` binding that do not touch
//! the library: the version floor and how a version number reads, the
//! size checks on what the library reports, the widening of 10 and 12-bit
//! samples, what to ask the library to decode to, how a decoded plane's
//! rows are copied out, and the errors a decode can end in.

use vstd::prelude::*;
use vstd::arithmetic::div_mod::lemma_fundamental_div_mod_converse;
use crate::text::{push_str, push_decimal, decimal};
use crate::codecs::avif::{widened, widen as widen_samples};
use crate::codecs::pixels::{le16_samples, le16_seq};
use crate::image::Samples;

verus! {

/// Oldest `libheif` accepted, as `heif_get_version_number` encodes it:
/// 1.17.0.
pub const MIN_VERSION: u32 = 0x0111_0000;

/// Why a decode did not happen.
#[derive(Debug, Clone, PartialEq, Eq)]
pub enum Error {
    /// No usable `libheif` on this machine; the reason the availability
    /// probe gives.
    Unavailable(String),
    /// The image is larger than the caller allows.
    TooLarge {
        /// Pixels in the image.
        pixels: u64,
        /// The caller's limit.
        limit: u64,
    },
    /// `libheif` refused the file; its own message.
    Decode(String),
}

/// How a binding error reads.
pub open spec fn spec_dl_message(e: Error) -> Seq<char> {
    match e {
        Error::Unavailable(r) => r@,
        Error::TooLarge { pixels, limit } => "image has "@ + decimal(pixels as nat) + " pixels, limit is "@
            + decimal(limit as nat),
        Error::Decode(m) => m@,
    }
}

impl Error {
    /// The error as prose.
    pub fn message(&self) -> (r: String)
        ensures
            r@ == spec_dl_message(*self),
    {
        let mut s = String::new();
        match self {
            Error::Unavailable(r) => push_str(&mut s, r.as_str()),
            Error::TooLarge { pixels, limit } => {
                push_str(&mut s, "image has ");
                push_decimal(&mut s, *pixels);
                push_str(&mut s, " pixels, limit is ");
                push_decimal(&mut s, *limit);
            },
            Error::Decode(m) => push_str(&mut s, m.as_str()),
        }
        s
    }
}

/// A version number as `(major, minor, patch)`: the top byte, the next,
/// and the one after.
pub fn version_triple(bcd: u32) -> (r: (u8, u8, u8))
    ensures
        r.0 == bcd / 0x100_0000,
        r.1 == (bcd / 0x1_0000) % 0x100,
        r.2 == (bcd / 0x100) % 0x100,
{
    ((bcd / 0x100_0000) as u8, ((bcd / 0x1_0000) % 0x100) as u8, ((bcd / 0x100) % 0x100) as u8)
}

/// Whether a version number is at least the floor.
pub fn version_ok(bcd: u32) -> (r: bool)
    ensures
        r == (bcd >= MIN_VERSION),
{
    bcd >= MIN_VERSION
}

/// The platform the library is looked for on.
#[derive(Debug, Clone, Copy, PartialEq, Eq, Structural)]
pub enum Platform {
    /// macOS.
    MacOs,
    /// Windows.
    Windows,
    /// Linux and the rest.
    Other,
}

/// The platform's default file name for the library.
pub open spec fn spec_library_name(p: Platform) -> Seq<char> {
    match p {
        Platform::MacOs => "libheif.1.dylib"@,
        Platform::Windows => "heif.dll"@,
        Platform::Other => "libheif.so.1"@,
    }
}

/// How to get the library on each platform.
pub open spec fn spec_install_hint(p: Platform) -> Seq<char> {
    match p {
        Platform::MacOs => "brew install libheif"@,
        Platform::Windows => "put a libheif build's heif.dll on PATH"@,
        Platform::Other => "Debian/Ubuntu: apt install libheif1 libheif-plugin-libde265; Fedora: libheif-freeworld from RPM Fusion"@,
    }
}

/// The platform's default file name for the library.
pub fn library_name(p: Platform) -> (r: &'static str)
    ensures
        r@ == spec_library_name(p),
{
    match p {
        Platform::MacOs => "libheif.1.dylib",
        Platform::Windows => "heif.dll",
        Platform::Other => "libheif.so.1",
    }
}

/// How to get the library, for the not-found message.
pub fn install_hint(p: Platform) -> (r: &'static str)
    ensures
        r@ == spec_install_hint(p),
{
    match p {
        Platform::MacOs => "brew install libheif",
        Platform::Windows => "put a libheif build's heif.dll on PATH",
        Platform::Other => "Debian/Ubuntu: apt install libheif1 libheif-plugin-libde265; Fedora: libheif-freeworld from RPM Fusion",
    }
}

/// `libheif major.minor.patch`.
pub open spec fn version_name(bcd: u32) -> Seq<char> {
    "libheif "@ + decimal((bcd / 0x100_0000) as nat) + "."@ + decimal(((bcd / 0x1_0000) % 0x100) as nat) + "."@
        + decimal(((bcd / 0x100) % 0x100) as nat)
}

/// What a library file that loaded comes to: its version, or why it
/// cannot be used. Older than the floor is refused; so is a library with
/// no HEVC decoder plugin, whose message adds the plugin loading error
/// when there was one.
pub open spec fn spec_loaded(bcd: u32, path: Seq<char>, hevc_decoders: i32, init_error: Option<Seq<char>>, p: Platform) -> Result<(u8, u8, u8), Seq<char>> {
    if bcd < MIN_VERSION {
        Err(version_name(bcd) + " at "@ + path + " is older than 1.17, the oldest sqzer supports"@)
    } else if hevc_decoders <= 0 {
        Err(version_name(bcd) + " at "@ + path + " has no HEVC decoder plugin ("@ + spec_install_hint(p) + ")"@
            + match init_error {
                Some(e) => "; plugin loading failed: "@ + e,
                None => Seq::empty(),
            })
    } else {
        Ok((
            (bcd / 0x100_0000) as u8,
            ((bcd / 0x1_0000) % 0x100) as u8,
            ((bcd / 0x100) % 0x100) as u8,
        ))
    }
}

/// Judges a library file that loaded, given its version number, how
/// many HEVC decoders it lists, and the error `heif_init` gave, if any.
pub fn check_loaded(bcd: u32, path: &str, hevc_decoders: i32, init_error: Option<&str>, p: Platform) -> (r: Result<(u8, u8, u8), String>)
    ensures
        match spec_loaded(bcd, path@, hevc_decoders, match init_error { Some(e) => Some(e@), None => None }, p) {
            Ok(v) => r == Ok::<(u8, u8, u8), String>(v),
            Err(m) => r matches Err(s) && s@ == m,
        },
{
    let version = version_triple(bcd);
    let mut name = String::new();
    push_str(&mut name, "libheif ");
    push_decimal(&mut name, version.0 as u64);
    push_str(&mut name, ".");
    push_decimal(&mut name, version.1 as u64);
    push_str(&mut name, ".");
    push_decimal(&mut name, version.2 as u64);
    assert(name@ =~= version_name(bcd));
    if !version_ok(bcd) {
        push_str(&mut name, " at ");
        push_str(&mut name, path);
        push_str(&mut name, " is older than 1.17, the oldest sqzer supports");
        return Err(name);
    }
    if hevc_decoders <= 0 {
        push_str(&mut name, " at ");
        push_str(&mut name, path);
        push_str(&mut name, " has no HEVC decoder plugin (");
        push_str(&mut name, install_hint(p));
        push_str(&mut name, ")");
        match init_error {
            Some(e) => {
                push_str(&mut name, "; plugin loading failed: ");
                push_str(&mut name, e);
            },
            None => {},
        }
        return Err(name);
    }
    Ok(version)
}

/// The message when no candidate loaded: the file name, how to get it,
/// and the variable that points at it.
pub fn not_found(p: Platform) -> (r: String)
    ensures
        r@ == spec_library_name(p) + " not found ("@ + spec_install_hint(p) + ", or point "@ + "SQZER_LIBHEIF"@
            + " at it)"@,
{
    let mut m = String::new();
    push_str(&mut m, library_name(p));
    push_str(&mut m, " not found (");
    push_str(&mut m, install_hint(p));
    push_str(&mut m, ", or point ");
    push_str(&mut m, "SQZER_LIBHEIF");
    push_str(&mut m, " at it)");
    m
}

/// What the library reported for a size, checked: not negative, not
/// empty, and within the caller's pixel limit.
pub fn check_pixels(width: i32, height: i32, limit: u64) -> (r: Result<(u32, u32), Error>)
    ensures
        width < 0 || height < 0 ==> (r matches Err(Error::Decode(m)) && m@ == "libheif reported a negative size"@),
        width >= 0 && height >= 0 && (width == 0 || height == 0) ==> (r matches Err(Error::Decode(m)) && m@
            == "libheif reported an empty image"@),
        width > 0 && height > 0 && width * height > limit ==> (r matches Err(Error::TooLarge { pixels, limit: l })
            && pixels == width * height && l == limit),
        width > 0 && height > 0 && width * height <= limit ==> r == Ok::<(u32, u32), Error>(
            (width as u32, height as u32),
        ),
{
    let mut m = String::new();
    if width < 0 || height < 0 {
        push_str(&mut m, "libheif reported a negative size");
        return Err(Error::Decode(m));
    }
    if width == 0 || height == 0 {
        push_str(&mut m, "libheif reported an empty image");
        return Err(Error::Decode(m));
    }
    let (w, h) = (width as u32, height as u32);
    proof {
        assert(w * h <= u32::MAX * u32::MAX) by (nonlinear_arith)
            requires w <= u32::MAX, h <= u32::MAX;
    }
    let pixels = (w as u64) * (h as u64);
    if pixels > limit {
        return Err(Error::TooLarge { pixels, limit });
    }
    Ok((w, h))
}

/// Scales `bits`-bit samples to 16 bits, replicating the top bits so the
/// endpoints land on 0 and 65535; anything but 10 or 12 bits is left as
/// it is.
pub fn widen(v: &mut [u16], bits: i32)
    ensures
        final(v)@.len() == old(v)@.len(),
        forall|i: int| 0 <= i < old(v)@.len() ==> #[trigger] final(v)@[i] == if bits == 10 || bits == 12 {
            widened(old(v)@[i], bits as u32)
        } else {
            old(v)@[i]
        },
{
    if bits == 10 || bits == 12 {
        widen_samples(v, bits as u32);
    }
}

/// `heif_colorspace` and `heif_chroma` to decode to: monochrome for a
/// file that prefers it, else interleaved RGB or RGBA, 16-bit
/// little-endian when the source is deeper than 8 bits.
pub open spec fn spec_decode_target(mono: bool, alpha: bool, wide: bool) -> (i32, i32) {
    if mono {
        (2, 0)
    } else if !alpha && !wide {
        (1, 10)
    } else if alpha && !wide {
        (1, 11)
    } else if !alpha {
        (1, 14)
    } else {
        (1, 15)
    }
}

/// The colourspace and chroma to decode to.
pub fn decode_target(mono: bool, alpha: bool, wide: bool) -> (r: (i32, i32))
    ensures
        r == spec_decode_target(mono, alpha, wide),
{
    if mono {
        (2, 0)
    } else if !alpha && !wide {
        (1, 10)
    } else if alpha && !wide {
        (1, 11)
    } else if !alpha {
        (1, 14)
    } else {
        (1, 15)
    }
}

/// Bytes in one row of a plane: `channels` samples a pixel, two bytes a
/// sample when `wide`.
pub open spec fn row_len(width: u32, channels: u8, wide: bool) -> int {
    width * channels * if wide { 2int } else { 1int }
}

/// The rows of a plane laid end to end, each `row` bytes long and
/// starting `stride` bytes after the one before.
pub open spec fn packed_rows(data: Seq<u8>, stride: int, row: int, height: int) -> Seq<u8> {
    Seq::new((height * row) as nat, |k: int| data[(k / row) * stride + k % row])
}

/// What a plane becomes: its rows packed, as bytes or, when `wide`, as
/// little-endian 16-bit samples scaled up from `bits` bits.
pub open spec fn plane_ok(r: Result<Samples, Error>, data: Seq<u8>, stride: usize, width: u32, height: u32, channels: u8, wide: bool, bits: i32) -> bool {
    let row = row_len(width, channels, wide);
    if stride < row {
        r matches Err(Error::Decode(m)) && m@ == "libheif plane is narrower than its geometry"@
    } else {
        let bytes = packed_rows(data, stride as int, row, height as int);
        if !wide {
            r matches Ok(Samples::U8(v)) && v@ == bytes
        } else {
            r matches Ok(Samples::U16(v)) && v@.len() == le16_seq(bytes).len()
                && forall|i: int| 0 <= i < v@.len() ==> #[trigger] v@[i] == if bits == 10 || bits == 12 {
                    widened(le16_seq(bytes)[i], bits as u32)
                } else {
                    le16_seq(bytes)[i]
                }
        }
    }
}

proof fn lemma_row_fits(y: int, h: int, stride: int, k: int, row: int)
    by (nonlinear_arith)
    requires
        0 <= y < h,
        0 <= k < row <= stride,
    ensures
        y * stride + k < stride * (h - 1) + row,
        0 <= y * stride,
{
}

/// Copies a decoded plane out of the library's buffer: `data` holds the
/// plane from its first byte to the end of its last row, rows `stride`
/// bytes apart.
///
/// # Errors
/// `Decode` when the stride is shorter than a row.
pub fn plane_samples(data: &[u8], stride: usize, width: u32, height: u32, channels: u8, wide: bool, bits: i32) -> (r: Result<Samples, Error>)
    requires
        height >= 1,
        row_len(width, channels, wide) <= usize::MAX,
        stride >= row_len(width, channels, wide) ==> data@.len() >= stride * (height - 1) + row_len(width, channels, wide),
    ensures
        plane_ok(r, data@, stride, width, height, channels, wide, bits),
{
    let row: usize = (width as usize) * (channels as usize) * (if wide { 2usize } else { 1usize });
    if stride < row {
        let mut m = String::new();
        push_str(&mut m, "libheif plane is narrower than its geometry");
        return Err(Error::Decode(m));
    }
    let ghost want = packed_rows(data@, stride as int, row as int, height as int);
    let mut out: Vec<u8> = Vec::new();
    let mut y: usize = 0;
    while y < height as usize
        invariant
            row == row_len(width, channels, wide),
            stride >= row,
            data@.len() >= stride * (height - 1) + row,
            y <= height,
            out@.len() == y * row,
            want == packed_rows(data@, stride as int, row as int, height as int),
            forall|i: int| 0 <= i < out@.len() ==> out@[i] == data@[(i / (row as int)) * stride + i % (row as int)],
        decreases height - y,
    {
        let mut k: usize = 0;
        while k < row
            invariant
                row == row_len(width, channels, wide),
                stride >= row,
                data@.len() >= stride * (height - 1) + row,
                data@.len() == data.len(),
                y < height,
                k <= row,
                out@.len() == y * row + k,
                forall|i: int| 0 <= i < out@.len() ==> out@[i] == data@[(i / (row as int)) * stride + i % (row as int)],
            decreases row - k,
        {
            proof {
                lemma_row_fits(y as int, height as int, stride as int, k as int, row as int);
                lemma_fundamental_div_mod_converse(y * row + k, row as int, y as int, k as int);
            }
            out.push(data[y * stride + k]);
            k = k + 1;
        }
        y = y + 1;
        assert(out@.len() == y * row) by (nonlinear_arith)
            requires out@.len() == (y - 1) * row + row;
    }
    proof {
        assert(out@.len() == height * row);
        assert(out@ =~= want);
    }
    if !wide {
        return Ok(Samples::U8(out));
    }
    let mut wide_samples = le16_samples(out.as_slice());
    widen(wide_samples.as_mut_slice(), bits);
    Ok(Samples::U16(wide_samples))
}

/// Luma and alpha samples interleaved, pixel by pixel.
pub open spec fn zipped<T>(luma: Seq<T>, alpha: Seq<T>) -> Seq<T> {
    Seq::new((2 * if luma.len() < alpha.len() { luma.len() } else { alpha.len() }) as nat, |i: int| if i % 2 == 0 {
        luma[i / 2]
    } else {
        alpha[i / 2]
    })
}

fn zip_planes<T: Copy>(luma: &[T], alpha: &[T]) -> (r: Vec<T>)
    ensures
        r@ == zipped(luma@, alpha@),
{
    let n = if luma.len() < alpha.len() { luma.len() } else { alpha.len() };
    let mut out: Vec<T> = Vec::new();
    let mut i: usize = 0;
    while i < n
        invariant
            n == (if luma@.len() < alpha@.len() { luma@.len() } else { alpha@.len() }),
            i <= n,
            out@.len() == 2 * i,
            forall|j: int| 0 <= j < 2 * i ==> out@[j] == if j % 2 == 0 { luma@[j / 2] } else { alpha@[j / 2] },
        decreases n - i,
    {
        out.push(luma[i]);
        out.push(alpha[i]);
        assert forall|j: int| 0 <= j < 2 * (i + 1) implies out@[j] == if j % 2 == 0 { luma@[j / 2] } else { alpha@[j / 2] } by {
            if j >= 2 * i {
                lemma_fundamental_div_mod_converse(j, 2, i as int, j - 2 * i);
            }
        }
        i = i + 1;
    }
    assert(out@ =~= zipped(luma@, alpha@));
    out
}

/// The message for planes whose sizes disagree.
pub open spec fn plane_mismatch(aw: u32, ah: u32, w: u32, h: u32) -> Seq<char> {
    "alpha plane is "@ + decimal(aw as nat) + "x"@ + decimal(ah as nat) + ", luma plane is "@
        + decimal(w as nat) + "x"@ + decimal(h as nat)
}

/// A monochrome decode's samples: the luma plane with the alpha plane,
/// read at the same depth, interleaved in.
///
/// # Errors
/// `Decode` when the two planes differ in size.
pub fn gray_with_alpha(luma: Samples, w: u32, h: u32, alpha: Samples, aw: u32, ah: u32) -> (r: Result<Samples, Error>)
    requires
        (luma is U8 && alpha is U8) || (luma is U16 && alpha is U16),
    ensures
        (aw != w || ah != h) ==> (r matches Err(Error::Decode(m)) && m@ == plane_mismatch(aw, ah, w, h)),
        (aw == w && ah == h) ==> match (luma, alpha) {
            (Samples::U8(l), Samples::U8(a)) => r matches Ok(Samples::U8(v)) && v@ == zipped(l@, a@),
            (Samples::U16(l), Samples::U16(a)) => r matches Ok(Samples::U16(v)) && v@ == zipped(l@, a@),
            _ => false,
        },
{
    if aw != w || ah != h {
        let mut m = String::new();
        push_str(&mut m, "alpha plane is ");
        push_decimal(&mut m, aw as u64);
        push_str(&mut m, "x");
        push_decimal(&mut m, ah as u64);
        push_str(&mut m, ", luma plane is ");
        push_decimal(&mut m, w as u64);
        push_str(&mut m, "x");
        push_decimal(&mut m, h as u64);
        return Err(Error::Decode(m));
    }
    match (luma, alpha) {
        (Samples::U8(l), Samples::U8(a)) => Ok(Samples::U8(zip_planes(l.as_slice(), a.as_slice()))),
        (Samples::U16(l), Samples::U16(a)) => Ok(Samples::U16(zip_planes(l.as_slice(), a.as_slice()))),
        _ => {
            assert(false);
            Err(Error::Decode(String::new()))
        },
    }
}

} // verus!
