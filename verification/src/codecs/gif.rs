//! GIF sniffing: the signature, the logical screen size, and a walk of the
//! block structure that counts frames without decoding any.

use vstd::prelude::*;
use vstd::arithmetic::div_mod::{lemma_fundamental_div_mod, lemma_fundamental_div_mod_converse};
use crate::bytes::{starts_with, le16, read_le16};
use crate::codecs::pixels::zeroed_bytes;
use crate::error::Error;
use crate::format::{Format, FormatInfo, DecoderCaps, Tier};
use crate::image::{ColorType, Image, SampleData, new_result_ok, size_text};
use crate::params::DecodeOpts;
use crate::text::push_str;

verus! {

/// Header (6 bytes) plus logical screen descriptor (7 bytes).
pub const HEADER: usize = 13;

/// `GIF87a`.
pub open spec fn gif87a() -> Seq<u8> {
    seq![0x47u8, 0x49, 0x46, 0x38, 0x37, 0x61]
}

/// `GIF89a`.
pub open spec fn gif89a() -> Seq<u8> {
    seq![0x47u8, 0x49, 0x46, 0x38, 0x39, 0x61]
}

/// Bytes of the colour table a packed-fields byte announces: three per
/// entry, `2^(n+1)` entries for size field `n`.
pub open spec fn table_bytes(flags: u8) -> int {
    let n = flags % 8;
    if n == 0 { 6 } else if n == 1 { 12 } else if n == 2 { 24 } else if n == 3 { 48 }
    else if n == 4 { 96 } else if n == 5 { 192 } else if n == 6 { 384 } else { 768 }
}

/// The position after the data sub-blocks starting at `pos`: each is a
/// length byte and that many bytes, a zero length ends them.
pub open spec fn skip_blocks(b: Seq<u8>, pos: int) -> int
    decreases b.len() - pos,
{
    if 0 <= pos < b.len() {
        let n = b[pos] as int;
        if n == 0 {
            pos + 1
        } else if pos + 1 + n >= b.len() {
            pos + 1 + n
        } else {
            skip_blocks(b, pos + 1 + n)
        }
    } else {
        pos
    }
}

/// Image descriptors counted from `pos`, `frames` already seen, stopping
/// at `stop`, at the trailer, at anything the walk does not understand,
/// or at the end of the bytes.
pub open spec fn frames_from(b: Seq<u8>, pos: int, frames: int, stop: int) -> int
    decreases b.len() - pos,
{
    if frames >= stop || pos < 0 || pos >= b.len() {
        frames
    } else if b[pos] == 0x2C {
        if pos + 9 >= b.len() {
            frames + 1
        } else {
            let f = b[pos + 9];
            let t = if f >= 0x80 { table_bytes(f) } else { 0 };
            let next = skip_blocks(b, pos + 11 + t);
            proof { lemma_skip_advances(b, pos + 11 + t); }
            if next >= b.len() { frames + 1 } else { frames_from(b, next, frames + 1, stop) }
        }
    } else if b[pos] == 0x21 {
        let next = skip_blocks(b, pos + 2);
        proof { lemma_skip_advances(b, pos + 2); }
        if next >= b.len() { frames } else { frames_from(b, next, frames, stop) }
    } else {
        frames
    }
}

/// The frame count up to `stop`, the walk starting after the header and
/// any global colour table.
pub open spec fn spec_frame_count(b: Seq<u8>, stop: int) -> int {
    let start = 13 + if b[10] >= 0x80 { table_bytes(b[10]) } else { 0 };
    frames_from(b, start, 0, stop)
}

/// Skipping never moves backwards.
pub proof fn lemma_skip_advances(b: Seq<u8>, pos: int)
    ensures
        skip_blocks(b, pos) >= pos,
    decreases b.len() - pos,
{
    if 0 <= pos < b.len() {
        let n = b[pos] as int;
        if n != 0 && pos + 1 + n < b.len() {
            lemma_skip_advances(b, pos + 1 + n);
        }
    }
}

/// Colour-table size, for code.
fn table_len(flags: u8) -> (r: usize)
    ensures
        r == table_bytes(flags),
{
    let n = flags % 8;
    if n == 0 { 6 } else if n == 1 { 12 } else if n == 2 { 24 } else if n == 3 { 48 }
    else if n == 4 { 96 } else if n == 5 { 192 } else if n == 6 { 384 } else { 768 }
}

/// The position after the sub-blocks at `pos`, or the end of the bytes if
/// that comes first.
fn skip_sub_blocks(bytes: &[u8], pos: usize) -> (r: usize)
    requires
        pos <= bytes@.len(),
    ensures
        r == if skip_blocks(bytes@, pos as int) < bytes@.len() { skip_blocks(bytes@, pos as int) } else {
            bytes@.len() as int
        },
{
    let n = bytes.len();
    let mut p = pos;
    while p < n
        invariant
            n == bytes@.len(),
            pos <= p <= n,
            skip_blocks(bytes@, pos as int) == skip_blocks(bytes@, p as int),
        decreases n - p,
    {
        let len = bytes[p] as usize;
        if len == 0 {
            return p + 1;
        }
        if len >= n - p - 1 {
            return n;
        }
        p = p + 1 + len;
    }
    n
}

/// Counts image descriptors by walking the block structure, stopping at
/// `stop_at`. Only block lengths are read, so it is cheap on any file.
pub fn frame_count(bytes: &[u8], stop_at: usize) -> (r: usize)
    requires
        bytes@.len() > 10,
    ensures
        r == spec_frame_count(bytes@, stop_at as int),
{
    let n = bytes.len();
    let flags = bytes[10];
    let mut pos: usize = if flags >= 0x80 { 13 + table_len(flags) } else { 13 };
    let ghost target = spec_frame_count(bytes@, stop_at as int);
    let mut frames: usize = 0;
    while frames < stop_at
        invariant_except_break
            n == bytes@.len(),
            pos <= n + 800,
            frames <= stop_at,
            target == frames_from(bytes@, pos as int, frames as int, stop_at as int),
        ensures
            frames == target,
        decreases n + 800 - pos,
    {
        if pos >= n {
            break;
        }
        let c = bytes[pos];
        if c == 0x2C {
            frames = frames + 1;
            if n - pos <= 9 {
                break;
            }
            let f = bytes[pos + 9];
            let t: usize = if f >= 0x80 { table_len(f) } else { 0 };
            if 11 + t >= n - pos {
                proof { lemma_skip_advances(bytes@, pos + 11 + t); }
                break;
            }
            proof { lemma_skip_advances(bytes@, pos + 11 + t); }
            pos = skip_sub_blocks(bytes, pos + 11 + t);
        } else if c == 0x21 {
            if 2 >= n - pos {
                proof { lemma_skip_advances(bytes@, pos + 2); }
                break;
            }
            proof { lemma_skip_advances(bytes@, pos + 2); }
            pos = skip_sub_blocks(bytes, pos + 2);
        } else {
            break;
        }
    }
    frames
}

/// The sniff: at least a whole header and either signature; animated when
/// a second image descriptor follows the first.
pub open spec fn spec_gif_probe(b: Seq<u8>) -> Option<FormatInfo> {
    if b.len() < 13 || !(starts_with(b, gif87a()) || starts_with(b, gif89a())) {
        None
    } else {
        Some(FormatInfo { format: Format::Gif, animated: spec_frame_count(b, 2) > 1 })
    }
}

/// What `gif` decodes as the first frame with RGBA colour output, no
/// memory limit and frame consistency checked: its left and top offset,
/// width, height, transparent index and RGBA buffer; `None` when the file
/// has no image; or the crate's message.
pub uninterp spec fn gif_first_frame(bytes: Seq<u8>) -> Result<Option<(u16, u16, u16, u16, Option<u8>, Seq<u8>)>, Seq<char>>;

/// `gif::DecodeOptions` with `ColorOutput::RGBA`, `MemoryLimit::Unlimited`
/// and `check_frame_consistency(true)`, `read_info` over the bytes, then
/// `read_next_frame`. The contract names the frame's fields that come
/// back.
#[verifier::external_body]
fn first_frame(bytes: &[u8]) -> (r: Result<Option<(u16, u16, u16, u16, Option<u8>, Vec<u8>)>, String>)
    ensures
        match r {
            Ok(Some((l, t, w, h, tr, b))) => gif_first_frame(bytes@) == Ok::<Option<(u16, u16, u16, u16, Option<u8>, Seq<u8>)>, Seq<char>>(Some((l, t, w, h, tr, b@))),
            Ok(None) => gif_first_frame(bytes@) == Ok::<Option<(u16, u16, u16, u16, Option<u8>, Seq<u8>)>, Seq<char>>(None),
            Err(m) => gif_first_frame(bytes@) == Err::<Option<(u16, u16, u16, u16, Option<u8>, Seq<u8>)>, Seq<char>>(m@),
        },
{
    let mut o = gif::DecodeOptions::new();
    o.set_color_output(gif::ColorOutput::RGBA);
    o.set_memory_limit(gif::MemoryLimit::Unlimited);
    o.check_frame_consistency(true);
    let mut d = o.read_info(std::io::Cursor::new(bytes)).map_err(|e| e.to_string())?;
    let f = d.read_next_frame().map_err(|e| e.to_string())?;
    Ok(f.map(|f| (f.left, f.top, f.width, f.height, f.transparent, f.buffer.to_vec())))
}

/// The red, green and blue of each whole RGBA pixel.
pub open spec fn rgb_of_rgba(b: Seq<u8>) -> Seq<u8> {
    Seq::new((b.len() / 4 * 3) as nat, |i: int| b[(i / 3) * 4 + i % 3])
}

/// How much of a span of `n` starting at `off` fits below `lim`.
pub open spec fn clipped(n: int, lim: int, off: int) -> int {
    let room = if lim > off { lim - off } else { 0 };
    if n < room { n } else { room }
}

/// Byte `i` of the screen, four bytes a pixel and `width` pixels a row,
/// once the frame is drawn at `(left, top)` on a transparent screen and
/// clipped to it. A byte the frame's buffer does not reach stays zero.
pub open spec fn screen_byte(buf: Seq<u8>, width: int, height: int, left: int, top: int, fw: int, fh: int, i: int) -> u8 {
    let stride = width * 4;
    let row = i / stride;
    let col = i % stride;
    let rows = clipped(fh, height, top);
    let cols = clipped(fw, width, left);
    if top <= row < top + rows && left * 4 <= col < (left + cols) * 4 {
        let s = (row - top) * fw * 4 + (col - left * 4);
        if s < buf.len() { buf[s] } else { 0 }
    } else {
        0
    }
}

/// The whole screen with the frame drawn on it.
pub open spec fn gif_screen(buf: Seq<u8>, width: int, height: int, left: int, top: int, fw: int, fh: int) -> Seq<u8> {
    Seq::new((width * height * 4) as nat, |i: int| screen_byte(buf, width, height, left, top, fw, fh, i))
}

/// What the first frame becomes: a frame that covers the whole screen
/// with no transparent colour is RGB; anything else is RGBA, drawn on a
/// transparent screen.
pub open spec fn gif_image_ok(r: Result<Image, Error>, width: u32, height: u32, left: u16, top: u16, fw: u16, fh: u16, transparent: Option<u8>, buf: Seq<u8>) -> bool {
    if left == 0 && top == 0 && fw == width && fh == height && transparent is None {
        new_result_ok(r, width, height, ColorType::Rgb, SampleData::U8(rgb_of_rgba(buf)))
    } else {
        new_result_ok(r, width, height, ColorType::Rgba, SampleData::U8(gif_screen(buf, width as int, height as int, left as int, top as int, fw as int, fh as int)))
    }
}

fn rgb_only(b: &Vec<u8>) -> (r: Vec<u8>)
    ensures
        r@ == rgb_of_rgba(b@),
{
    let n = b.len() / 4;
    let mut out: Vec<u8> = Vec::new();
    let mut p: usize = 0;
    while p < n
        invariant
            n == b@.len() / 4,
            b@.len() == b.len(),
            p <= n,
            out@.len() == p * 3,
            forall|i: int| 0 <= i < p * 3 ==> out@[i] == b@[(i / 3) * 4 + i % 3],
        decreases n - p,
    {
        out.push(b[4 * p]);
        out.push(b[4 * p + 1]);
        out.push(b[4 * p + 2]);
        assert forall|i: int| 0 <= i < (p + 1) * 3 implies out@[i] == b@[(i / 3) * 4 + i % 3] by {
            if i >= p * 3 {
                lemma_fundamental_div_mod_converse(i, 3, p as int, i - p * 3);
            }
        }
        p = p + 1;
    }
    assert(out@ =~= rgb_of_rgba(b@));
    out
}

proof fn lemma_row_col(i: int, stride: int, row: int, col: int)
    requires
        stride > 0,
        0 <= col < stride,
        i == row * stride + col,
    ensures
        i / stride == row,
        i % stride == col,
{
    lemma_fundamental_div_mod_converse(i, stride, row, col);
}

proof fn lemma_row_end(row: int, h: int, stride: int)
    by (nonlinear_arith)
    requires
        0 <= row < h,
        stride >= 0,
    ensures
        0 <= row * stride,
        row * stride + stride <= stride * h,
{
}

proof fn lemma_same_place(i: int, q: int, m: int, row: int, col: int, stride: int)
    by (nonlinear_arith)
    requires
        i == stride * q + m,
        q == row,
        m == col,
    ensures
        i == row * stride + col,
{
}

/// The first frame of a GIF as an image of its logical screen.
pub fn gif_image(width: u32, height: u32, left: u16, top: u16, fw: u16, fh: u16, transparent: Option<u8>, buf: Vec<u8>) -> (r: Result<Image, Error>)
    requires
        width * height * 4 <= usize::MAX,
    ensures
        gif_image_ok(r, width, height, left, top, fw, fh, transparent, buf@),
{
    if left == 0 && top == 0 && fw as u32 == width && fh as u32 == height && transparent.is_none() {
        return Image::from_u8(width, height, ColorType::Rgb, rgb_only(&buf));
    }
    let ghost (w, h, l, t, fwi, fhi) = (width as int, height as int, left as int, top as int, fw as int, fh as int);
    proof {
        assert(width * 4 <= width * height * 4 || height == 0) by (nonlinear_arith)
            requires height >= 0, width >= 0;
        assert(width * height * 4 == (width * 4) * height) by (nonlinear_arith);
    }
    if height == 0 || width == 0 {
        proof {
            assert(w * h * 4 == 0) by (nonlinear_arith) requires w == 0 || h == 0;
            assert(gif_screen(buf@, w, h, l, t, fwi, fhi) =~= Seq::<u8>::empty());
        }
        return Image::from_u8(width, height, ColorType::Rgba, Vec::new());
    }
    let stride: usize = (width as usize) * 4;
    let len: usize = stride * (height as usize);
    let mut canvas = zeroed_bytes(len);
    let rows: u32 = if (fh as u32) < height - (if (top as u32) < height { top as u32 } else { height }) {
        fh as u32
    } else {
        height - (if (top as u32) < height { top as u32 } else { height })
    };
    let cols: u32 = if (fw as u32) < width - (if (left as u32) < width { left as u32 } else { width }) {
        fw as u32
    } else {
        width - (if (left as u32) < width { left as u32 } else { width })
    };
    assert(rows == clipped(fhi, h, t));
    assert(cols == clipped(fwi, w, l));
    let mut y: u32 = 0;
    while y < rows
        invariant
            stride == w * 4,
            len == stride * h,
            w > 0,
            h > 0,
            canvas@.len() == len,
            rows == clipped(fhi, h, t),
            cols == clipped(fwi, w, l),
            y <= rows,
            (w, h, l, t, fwi, fhi) == (width as int, height as int, left as int, top as int, fw as int, fh as int),
            forall|i: int| 0 <= i < len ==> canvas@[i] == if i / (stride as int) < t + y {
                screen_byte(buf@, w, h, l, t, fwi, fhi, i)
            } else {
                0
            },
        decreases rows - y,
    {
        let row: usize = top as usize + y as usize;
        proof {
            lemma_row_end(row as int, h, stride as int);
        }
        if cols > 0 {
            let dst: usize = row * stride + (left as usize) * 4;
            let src: Option<usize> = match (y as usize).checked_mul(fw as usize) {
                Some(a) => a.checked_mul(4),
                None => None,
            };
            let span: usize = (cols as usize) * 4;
            let mut k: usize = 0;
            while k < span
                invariant
                    stride == w * 4,
                    len == stride * h,
                    w > 0,
                    h > 0,
                    canvas@.len() == len,
                    rows == clipped(fhi, h, t),
                    cols == clipped(fwi, w, l),
                    cols > 0,
                    y < rows,
                    row == t + y,
                    row * stride + stride <= len,
                    0 <= row * stride,
                    l * 4 + span <= stride,
                    dst == row * stride + l * 4,
                    span == cols * 4,
                    k <= span,
                    match src { Some(s) => s == y * fwi * 4, None => y * fwi * 4 > usize::MAX },
                    (w, h, l, t, fwi, fhi) == (width as int, height as int, left as int, top as int, fw as int, fh as int),
                    forall|i: int| 0 <= i < len ==> canvas@[i] == if i / (stride as int) < row
                        || (i / (stride as int) == row && i % (stride as int) < l * 4 + k) {
                        screen_byte(buf@, w, h, l, t, fwi, fhi, i)
                    } else {
                        0
                    },
                decreases span - k,
            {
                let d: usize = dst + k;
                proof {
                    lemma_row_col(d as int, stride as int, row as int, l * 4 + k);
                }
                let value: u8 = match src {
                    Some(s) => if s < buf.len() && k < buf.len() - s { buf[s + k] } else { 0 },
                    None => 0,
                };
                proof {
                    let sb = (d as int) / (stride as int);
                    let cb = (d as int) % (stride as int);
                    assert(sb == row && cb == l * 4 + k);
                    assert(t <= sb < t + rows);
                    assert(l * 4 <= cb < (l + cols) * 4);
                    assert((sb - t) * fwi * 4 + (cb - l * 4) == y * fwi * 4 + k);
                }
                assert(value == screen_byte(buf@, w, h, l, t, fwi, fhi, d as int));
                let ghost old_canvas = canvas@;
                canvas.set(d, value);
                assert forall|i: int| 0 <= i < len implies canvas@[i] == if i / (stride as int) < row
                    || (i / (stride as int) == row && i % (stride as int) < l * 4 + k + 1) {
                    screen_byte(buf@, w, h, l, t, fwi, fhi, i)
                } else {
                    0
                } by {
                    if i == d as int {
                        assert(canvas@[i] == value);
                    } else {
                        assert(canvas@[i] == old_canvas[i]);
                        lemma_fundamental_div_mod(i, stride as int);
                        let q = i / (stride as int);
                        let m = i % (stride as int);
                        if q == row && m == l * 4 + k {
                            lemma_same_place(i, q, m, row as int, l * 4 + k, stride as int);
                        }
                    }
                }
                k = k + 1;
            }
        }
        assert forall|i: int| 0 <= i < len implies canvas@[i] == if i / (stride as int) < t + y + 1 {
            screen_byte(buf@, w, h, l, t, fwi, fhi, i)
        } else {
            0
        } by {
            if i / (stride as int) == row && i % (stride as int) >= l * 4 + cols * 4 {
                assert(screen_byte(buf@, w, h, l, t, fwi, fhi, i) == 0);
            }
        }
        y = y + 1;
    }
    assert(canvas@ =~= gif_screen(buf@, w, h, l, t, fwi, fhi)) by {
        assert(w * h * 4 == len);
    }
    Image::from_u8(width, height, ColorType::Rgba, canvas)
}

/// What decoding GIF bytes gives: not a GIF, the pixel limit's refusal,
/// an empty logical screen, a screen too large to address, the crate's
/// message, no image at all, or the first frame on the screen.
pub open spec fn gif_decode_ok(r: Result<Image, Error>, bytes: Seq<u8>, opts: DecodeOpts) -> bool {
    if spec_gif_probe(bytes).is_none() {
        r matches Err(Error::Codec(m)) && m@ == "not a GIF"@
    } else {
        let w = le16(bytes, 6) as u32;
        let h = le16(bytes, 8) as u32;
        if w * h > opts.max_pixels {
            r matches Err(Error::TooLarge { pixels, limit }) && pixels == w * h && limit == opts.max_pixels
        } else if w == 0 || h == 0 {
            r matches Err(Error::Codec(m)) && m@ == "GIF with an empty logical screen"@
        } else if w * h * 4 > usize::MAX {
            r matches Err(Error::InvalidInput(m)) && m@ == size_text(w, h) + " does not fit in memory"@
        } else {
            match gif_first_frame(bytes) {
                Err(m) => r matches Err(Error::Codec(s)) && s@ == m,
                Ok(None) => r matches Err(Error::Codec(s)) && s@ == "GIF has no image"@,
                Ok(Some((l, t, fw, fh, tr, b))) => gif_image_ok(r, w, h, l, t, fw, fh, tr, b),
            }
        }
    }
}

/// GIF decoder: the first frame, composed onto the logical screen.
#[derive(Debug, Clone, Copy, Default)]
pub struct GifDecoder;

impl GifDecoder {
    /// What this decoder is.
    pub fn caps(&self) -> (r: DecoderCaps)
        ensures
            r.format == Format::Gif && !r.animation && r.tier == Tier::Portable,
    {
        DecoderCaps { format: Format::Gif, name: "gif", animation: false, tier: Tier::Portable }
    }

    /// The signature check, with a frame count to tell animations apart.
    pub fn probe(&self, bytes: &[u8]) -> (r: Option<FormatInfo>)
        ensures
            r == spec_gif_probe(bytes@),
    {
        if bytes.len() < HEADER {
            return None;
        }
        let sig87: [u8; 6] = [0x47, 0x49, 0x46, 0x38, 0x37, 0x61];
        let sig89: [u8; 6] = [0x47, 0x49, 0x46, 0x38, 0x39, 0x61];
        assert(sig87@ == gif87a());
        assert(sig89@ == gif89a());
        if !(crate::bytes::has_prefix(bytes, &sig87) || crate::bytes::has_prefix(bytes, &sig89)) {
            return None;
        }
        Some(FormatInfo { format: Format::Gif, animated: frame_count(bytes, 2) > 1 })
    }

    /// The logical screen size, little-endian after the signature.
    pub fn dimensions(&self, bytes: &[u8]) -> (r: Option<(u32, u32)>)
        ensures
            r == if spec_gif_probe(bytes@).is_some() {
                Some((le16(bytes@, 6) as u32, le16(bytes@, 8) as u32))
            } else {
                None
            },
    {
        if self.probe(bytes).is_none() {
            return None;
        }
        Some((read_le16(bytes, 6) as u32, read_le16(bytes, 8) as u32))
    }

    /// Decodes the first frame, composed onto the logical screen.
    ///
    /// # Errors
    /// `Codec` for what is not a GIF, an empty screen, the crate's messages
    /// and a file without an image; `TooLarge` above the pixel limit.
    pub fn decode(&self, bytes: &[u8], opts: &DecodeOpts) -> (r: Result<Image, Error>)
        ensures
            gif_decode_ok(r, bytes@, *opts),
    {
        let (width, height) = match self.dimensions(bytes) {
            Some(d) => d,
            None => {
                let mut m = String::new();
                push_str(&mut m, "not a GIF");
                return Err(Error::Codec(m));
            },
        };
        match opts.check_pixels(width, height) {
            Ok(()) => {},
            Err(e) => return Err(e),
        }
        if width == 0 || height == 0 {
            let mut m = String::new();
            push_str(&mut m, "GIF with an empty logical screen");
            return Err(Error::Codec(m));
        }
        let fits = match (width as usize).checked_mul(height as usize) {
            Some(p) => p.checked_mul(4).is_some(),
            None => false,
        };
        if !fits {
            let mut m = String::new();
            crate::image::push_size(&mut m, width, height);
            push_str(&mut m, " does not fit in memory");
            return Err(Error::InvalidInput(m));
        }
        match first_frame(bytes) {
            Err(m) => Err(Error::Codec(m)),
            Ok(None) => {
                let mut m = String::new();
                push_str(&mut m, "GIF has no image");
                Err(Error::Codec(m))
            },
            Ok(Some((left, top, fw, fh, transparent, buf))) => gif_image(width, height, left, top, fw, fh, transparent, buf),
        }
    }
}

} // verus!
