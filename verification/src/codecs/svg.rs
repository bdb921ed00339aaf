//! SVG through `resvg`: the sniff, whether the first element of the
//! document is `<svg` (after an optional byte-order mark, XML
//! declaration, comments and a doctype, looking no further than the first
//! 4 KiB), and the decode, which rasterises the document at its own size,
//! one CSS pixel per pixel. Embedded raster images (`data:` URLs) are
//! rendered, references to files on disk are refused, and the system's
//! fonts are loaded only for a document with text.

use vstd::prelude::*;
use crate::text::{is_ascii_ws_byte, push_str};
use crate::error::Error;
use crate::format::{Format, FormatInfo, DecoderCaps, Tier};
use crate::image::{ColorType, Image, SampleData, new_result_ok};
use crate::params::DecodeOpts;
use resvg::usvg::Tree;

verus! {

/// How far into the file the sniff looks for the root element.
pub const SNIFF: usize = 4096;

/// Whether the bytes from `p` begin with `needle`, all before `lim`.
pub open spec fn at_prefix(b: Seq<u8>, lim: int, p: int, needle: Seq<u8>) -> bool {
    0 <= p && p + needle.len() <= lim && b.subrange(p, p + needle.len()) == needle
}

/// The first position from `p` that is not ASCII white space, or `lim`.
pub open spec fn skip_ws_from(b: Seq<u8>, lim: int, p: int) -> int
    decreases lim - p,
{
    if 0 <= p < lim && is_ascii_ws_byte(b[p]) { skip_ws_from(b, lim, p + 1) } else { p }
}

/// Just past the first occurrence of `needle` at or after `i`, before
/// `lim`.
pub open spec fn find_from(b: Seq<u8>, lim: int, i: int, needle: Seq<u8>) -> Option<int>
    decreases lim - i,
{
    if i < 0 || i >= lim || i + needle.len() > lim {
        None
    } else if b.subrange(i, i + needle.len()) == needle {
        Some(i + needle.len())
    } else {
        find_from(b, lim, i + 1, needle)
    }
}

/// `<?`.
pub open spec fn pi_open() -> Seq<u8> { seq![0x3Cu8, 0x3F] }
/// `?>`.
pub open spec fn pi_close() -> Seq<u8> { seq![0x3Fu8, 0x3E] }
/// `<!--`.
pub open spec fn comment_open() -> Seq<u8> { seq![0x3Cu8, 0x21, 0x2D, 0x2D] }
/// `-->`.
pub open spec fn comment_close() -> Seq<u8> { seq![0x2Du8, 0x2D, 0x3E] }
/// `<!`.
pub open spec fn decl_open() -> Seq<u8> { seq![0x3Cu8, 0x21] }
/// `>`.
pub open spec fn decl_close() -> Seq<u8> { seq![0x3Eu8] }
/// `<svg`.
pub open spec fn svg_open() -> Seq<u8> { seq![0x3Cu8, 0x73, 0x76, 0x67] }

/// A match ends past where the search started, and before the limit.
pub proof fn lemma_find_after(b: Seq<u8>, lim: int, i: int, needle: Seq<u8>)
    requires
        needle.len() > 0,
    ensures
        match find_from(b, lim, i, needle) {
            Some(e) => i + needle.len() <= e <= lim,
            None => true,
        },
    decreases lim - i,
{
    if !(i < 0 || i >= lim || i + needle.len() > lim) && b.subrange(i, i + needle.len()) != needle {
        lemma_find_after(b, lim, i + 1, needle);
    }
}

/// Skipping white space stays between the start and the limit.
pub proof fn lemma_skip_ws_range(b: Seq<u8>, lim: int, p: int)
    ensures
        skip_ws_from(b, lim, p) >= p,
        p <= lim ==> skip_ws_from(b, lim, p) <= lim,
    decreases lim - p,
{
    if 0 <= p < lim && is_ascii_ws_byte(b[p]) {
        lemma_skip_ws_range(b, lim, p + 1);
    }
}

/// From `p`: skip white space, then processing instructions, comments and
/// declarations, until an element starts; whether it is `<svg` followed by
/// white space, `>` or `/`.
pub open spec fn root_from(b: Seq<u8>, lim: int, p: int) -> bool
    decreases lim - p,
{
    let q = skip_ws_from(b, lim, p);
    let skipped = if at_prefix(b, lim, q, pi_open()) {
        Some(find_from(b, lim, q, pi_close()))
    } else if at_prefix(b, lim, q, comment_open()) {
        Some(find_from(b, lim, q, comment_close()))
    } else if at_prefix(b, lim, q, decl_open()) {
        Some(find_from(b, lim, q, decl_close()))
    } else {
        None
    };
    match skipped {
        Some(Some(e)) => {
            proof {
                lemma_skip_ws_range(b, lim, p);
                lemma_find_after(b, lim, q, pi_close());
                lemma_find_after(b, lim, q, comment_close());
                lemma_find_after(b, lim, q, decl_close());
            }
            if e > p && e <= lim { root_from(b, lim, e) } else { false }
        },
        Some(None) => false,
        None => at_prefix(b, lim, q, svg_open()) && q + 4 < lim && (is_ascii_ws_byte(b[q + 4]) || b[q + 4]
            == 0x3E || b[q + 4] == 0x2F),
    }
}

/// The sniff over the first 4 KiB, after a byte-order mark if there is
/// one.
pub open spec fn spec_root_is_svg(b: Seq<u8>) -> bool {
    let lim = if b.len() < 4096 { b.len() as int } else { 4096 };
    let start = if at_prefix(b, lim, 0, seq![0xEFu8, 0xBB, 0xBF]) { 3int } else { 0 };
    root_from(b, lim, start)
}

/// Whether the bytes from `p` begin with `needle`, all before `lim`.
fn at(b: &[u8], lim: usize, p: usize, needle: &[u8]) -> (r: bool)
    requires
        lim <= b@.len(),
    ensures
        r == at_prefix(b@, lim as int, p as int, needle@),
{
    if p > lim || needle.len() > lim - p {
        return false;
    }
    let mut i: usize = 0;
    while i < needle.len()
        invariant
            p + needle@.len() <= lim <= b@.len(),
            i <= needle@.len(),
            forall|j: int| 0 <= j < i ==> b@[p + j] == needle@[j],
        decreases needle@.len() - i,
    {
        if b[p + i] != needle[i] {
            assert(b@.subrange(p as int, p + needle@.len())[i as int] != needle@[i as int]);
            return false;
        }
        i = i + 1;
    }
    assert(b@.subrange(p as int, p + needle@.len()) =~= needle@);
    true
}

/// Just past the first occurrence of `needle` at or after `i`.
fn find(b: &[u8], lim: usize, i: usize, needle: &[u8]) -> (r: Option<usize>)
    requires
        lim <= b@.len(),
        i <= lim,
        needle@.len() > 0,
    ensures
        match find_from(b@, lim as int, i as int, needle@) {
            Some(e) => r == Some(e as usize),
            None => r.is_none(),
        },
{
    let mut k = i;
    while k < lim
        invariant
            lim <= b@.len(),
            needle@.len() > 0,
            i <= k <= lim,
            find_from(b@, lim as int, i as int, needle@) == find_from(b@, lim as int, k as int, needle@),
        decreases lim - k,
    {
        if needle.len() > lim - k {
            return None;
        }
        if at(b, lim, k, needle) {
            return Some(k + needle.len());
        }
        k = k + 1;
    }
    None
}

fn skip_ws(b: &[u8], lim: usize, p: usize) -> (r: usize)
    requires
        lim <= b@.len(),
        p <= lim,
    ensures
        r == skip_ws_from(b@, lim as int, p as int),
{
    let mut q = p;
    while q < lim
        invariant
            lim <= b@.len(),
            p <= q <= lim,
            skip_ws_from(b@, lim as int, p as int) == skip_ws_from(b@, lim as int, q as int),
        decreases lim - q,
    {
        let c = b[q];
        if !(c == 32 || c == 9 || c == 10 || c == 12 || c == 13) {
            return q;
        }
        q = q + 1;
    }
    q
}

/// Whether the first element of the document is `<svg`, after an optional
/// byte-order mark, XML declaration, comments and a doctype.
pub fn root_is_svg(bytes: &[u8]) -> (r: bool)
    ensures
        r == spec_root_is_svg(bytes@),
{
    let lim = if bytes.len() < SNIFF { bytes.len() } else { SNIFF };
    let bom: [u8; 3] = [0xEF, 0xBB, 0xBF];
    assert(bom@ == seq![0xEFu8, 0xBB, 0xBF]);
    let mut p: usize = if at(bytes, lim, 0, &bom) { 3 } else { 0 };
    let pio: [u8; 2] = [0x3C, 0x3F];
    let pic: [u8; 2] = [0x3F, 0x3E];
    let co: [u8; 4] = [0x3C, 0x21, 0x2D, 0x2D];
    let cc: [u8; 3] = [0x2D, 0x2D, 0x3E];
    let dopen: [u8; 2] = [0x3C, 0x21];
    let dclose: [u8; 1] = [0x3E];
    let svg: [u8; 4] = [0x3C, 0x73, 0x76, 0x67];
    assert(pio@ == pi_open() && pic@ == pi_close() && co@ == comment_open() && cc@ == comment_close());
    assert(dopen@ == decl_open() && dclose@ == decl_close() && svg@ == svg_open());
    let ghost target = spec_root_is_svg(bytes@);
    loop
        invariant
            lim <= bytes@.len(),
            lim as int == (if bytes@.len() < 4096 { bytes@.len() as int } else { 4096 }),
            p <= lim,
            target == root_from(bytes@, lim as int, p as int),
            target == spec_root_is_svg(bytes@),
            pio@ == pi_open() && pic@ == pi_close() && co@ == comment_open() && cc@ == comment_close(),
            dopen@ == decl_open() && dclose@ == decl_close() && svg@ == svg_open(),
        decreases lim - p,
    {
        let q = skip_ws(bytes, lim, p);
        proof { lemma_skip_ws_range(bytes@, lim as int, p as int); }
        let skipped = if at(bytes, lim, q, &pio) {
            find(bytes, lim, q, &pic)
        } else if at(bytes, lim, q, &co) {
            find(bytes, lim, q, &cc)
        } else if at(bytes, lim, q, &dopen) {
            find(bytes, lim, q, &dclose)
        } else {
            if !at(bytes, lim, q, &svg) || q + 4 >= lim {
                return false;
            }
            let c = bytes[q + 4];
            return c == 32 || c == 9 || c == 10 || c == 12 || c == 13 || c == 0x3E || c == 0x2F;
        };
        proof {
            lemma_find_after(bytes@, lim as int, q as int, pi_close());
            lemma_find_after(bytes@, lim as int, q as int, comment_close());
            lemma_find_after(bytes@, lim as int, q as int, decl_close());
        }
        match skipped {
            Some(e) => {
                if e <= p || e > lim {
                    return false;
                }
                p = e;
            },
            None => return false,
        }
    }
}

/// `<text`.
pub open spec fn text_open() -> Seq<u8> {
    seq![0x3Cu8, 0x74, 0x65, 0x78, 0x74]
}

/// Whether the document has a `<text` anywhere: only then are fonts
/// loaded, since loading the system's takes longer than rendering most
/// files.
pub open spec fn spec_has_text(b: Seq<u8>) -> bool {
    exists|i: int| 0 <= i && i + 5 <= b.len() && #[trigger] b.subrange(i, i + 5) == text_open()
}

/// Whether the document has text to shape.
pub fn has_text(bytes: &[u8]) -> (r: bool)
    ensures
        r == spec_has_text(bytes@),
{
    let needle: [u8; 5] = [0x3C, 0x74, 0x65, 0x78, 0x74];
    assert(needle@ == text_open());
    if bytes.len() < 5 {
        return false;
    }
    let mut i: usize = 0;
    while i < bytes.len() - 4
        invariant
            bytes@.len() >= 5,
            bytes@.len() == bytes.len(),
            i <= bytes@.len() - 4,
            needle@ == text_open(),
            forall|j: int| 0 <= j < i ==> #[trigger] bytes@.subrange(j, j + 5) != text_open(),
        decreases bytes@.len() - i,
    {
        if at(bytes, bytes.len(), i, &needle) {
            return true;
        }
        i = i + 1;
    }
    assert forall|j: int| 0 <= j && j + 5 <= bytes@.len() implies #[trigger] bytes@.subrange(j, j + 5) != text_open() by {}
    false
}

/// The parsed document, as `usvg` holds it.
#[verifier::external_type_specification]
#[verifier::external_body]
pub struct ExTree(Tree);

/// What `usvg::Tree::from_data` makes of the bytes with no fonts and no
/// file access, as a size: `Tree::size().to_int_size()`, whole pixels; or
/// the crate's message.
pub uninterp spec fn svg_plain_size(bytes: Seq<u8>) -> Result<(u32, u32), Seq<char>>;

/// `usvg::Tree::from_data` with no fonts and no file access (`data:`
/// images are resolved by the crate's default resolver, every other
/// `href` to nothing), then `Tree::size().to_int_size()`. The contract
/// names the size, at least one each way as the crate's source shows, or
/// the message.
#[verifier::external_body]
fn plain_size(bytes: &[u8]) -> (r: Result<(u32, u32), String>)
    ensures
        match r {
            Ok(s) => svg_plain_size(bytes@) == Ok::<(u32, u32), Seq<char>>(s) && s.0 >= 1 && s.1 >= 1,
            Err(m) => svg_plain_size(bytes@) == Err::<(u32, u32), Seq<char>>(m@),
        },
{
    let options = resvg::usvg::Options {
        image_href_resolver: resvg::usvg::ImageHrefResolver {
            resolve_data: resvg::usvg::ImageHrefResolver::default_data_resolver(),
            resolve_string: Box::new(|_, _| None),
        },
        ..Default::default()
    };
    let s = resvg::usvg::Tree::from_data(bytes, &options).map_err(|e| e.to_string())?.size().to_int_size();
    Ok((s.width(), s.height()))
}

#[verifier::external_body]
fn plain_render(bytes: &[u8], width: u32, height: u32) -> (r: Option<Vec<u8>>)
    ensures
        r matches Some(v) ==> v@.len() == width * height * 4,
{
    let options = resvg::usvg::Options {
        image_href_resolver: resvg::usvg::ImageHrefResolver {
            resolve_data: resvg::usvg::ImageHrefResolver::default_data_resolver(),
            resolve_string: Box::new(|_, _| None),
        },
        ..Default::default()
    };
    let tree = resvg::usvg::Tree::from_data(bytes, &options).ok()?;
    let mut pixmap = resvg::tiny_skia::Pixmap::new(width, height)?;
    resvg::render(&tree, resvg::tiny_skia::Transform::identity(), &mut pixmap.as_mut());
    Some(pixmap.take())
}

/// `usvg::Tree::from_data` as in [`plain_size`], with the system's fonts
/// loaded into the options' font database first, so text is shaped. What
/// the fonts are depends on the machine; nothing of the tree is stated.
#[verifier::external_body]
fn parse_with_fonts(bytes: &[u8]) -> (r: Result<Tree, String>) {
    let mut options = resvg::usvg::Options {
        image_href_resolver: resvg::usvg::ImageHrefResolver {
            resolve_data: resvg::usvg::ImageHrefResolver::default_data_resolver(),
            resolve_string: Box::new(|_, _| None),
        },
        ..Default::default()
    };
    options.fontdb_mut().load_system_fonts();
    resvg::usvg::Tree::from_data(bytes, &options).map_err(|e| e.to_string())
}

/// `Tree::size().to_int_size()`: the document's size rounded to whole
/// pixels, at least one each way, as the crate's source shows.
#[verifier::external_body]
fn tree_size(tree: &Tree) -> (r: (u32, u32))
    ensures
        r.0 >= 1,
        r.1 >= 1,
{
    let s = tree.size().to_int_size();
    (s.width(), s.height())
}

/// `tiny_skia::Pixmap::new`, `resvg::render` with the identity transform,
/// then `Pixmap::take`: the premultiplied RGBA bytes, four a pixel, or
/// `None` when the crate refuses the size. Which pixels the renderer
/// draws is not stated.
#[verifier::external_body]
fn rasterise(tree: &Tree, width: u32, height: u32) -> (r: Option<Vec<u8>>)
    ensures
        r matches Some(v) ==> v@.len() == width * height * 4,
{
    let mut pixmap = resvg::tiny_skia::Pixmap::new(width, height)?;
    resvg::render(tree, resvg::tiny_skia::Transform::identity(), &mut pixmap.as_mut());
    Some(pixmap.take())
}

/// What `tiny_skia::PremultipliedColorU8::demultiply` makes of one colour
/// channel `c` of a pixel with alpha `a`.
pub uninterp spec fn tiny_skia_demultiplied(c: u8, a: u8) -> u8;

/// `PremultipliedColorU8::from_rgba` then `demultiply`: the colour
/// channels with the alpha divided out. `from_rgba` accepts a pixel only
/// when no channel exceeds its alpha, and `demultiply` leaves an opaque
/// pixel as it is; both are in the crate's source.
#[verifier::external_body]
fn demultiply(r: u8, g: u8, b: u8, a: u8) -> (out: Option<(u8, u8, u8)>)
    ensures
        out is Some == (r <= a && g <= a && b <= a),
        out matches Some(t) ==> t == (tiny_skia_demultiplied(r, a), tiny_skia_demultiplied(g, a), tiny_skia_demultiplied(b, a)),
        a == 255 && out is Some ==> out == Some((r, g, b)),
{
    let c = resvg::tiny_skia::PremultipliedColorU8::from_rgba(r, g, b, a)?.demultiply();
    Some((c.red(), c.green(), c.blue()))
}

/// Whether every whole pixel of premultiplied RGBA bytes is opaque.
pub open spec fn all_opaque(px: Seq<u8>) -> bool {
    forall|i: int| 0 <= i < px.len() / 4 ==> #[trigger] px[4 * i + 3] == 255
}

/// Whether no colour channel of any whole pixel exceeds its alpha.
pub open spec fn premultiplied(px: Seq<u8>) -> bool {
    forall|i: int| 0 <= i < px.len() / 4 ==> #[trigger] px[4 * i] <= px[4 * i + 3] && px[4 * i + 1] <= px[4 * i + 3]
        && px[4 * i + 2] <= px[4 * i + 3]
}

/// The colour channels of the first `n` pixels.
pub open spec fn rgb_prefix(px: Seq<u8>, n: int) -> Seq<u8>
    decreases n,
{
    if n <= 0 {
        Seq::empty()
    } else {
        rgb_prefix(px, n - 1) + seq![px[4 * (n - 1)], px[4 * (n - 1) + 1], px[4 * (n - 1) + 2]]
    }
}

/// The first `n` pixels with their alpha divided out.
pub open spec fn demultiplied_prefix(px: Seq<u8>, n: int) -> Seq<u8>
    decreases n,
{
    if n <= 0 {
        Seq::empty()
    } else {
        let a = px[4 * (n - 1) + 3];
        demultiplied_prefix(px, n - 1) + seq![
            tiny_skia_demultiplied(px[4 * (n - 1)], a),
            tiny_skia_demultiplied(px[4 * (n - 1) + 1], a),
            tiny_skia_demultiplied(px[4 * (n - 1) + 2], a),
            a,
        ]
    }
}

/// What a rendering becomes: RGB when every pixel is opaque, else RGBA
/// with the alpha divided out; a rendering whose pixels are not
/// premultiplied is refused.
pub open spec fn svg_image_ok(r: Result<Image, Error>, w: u32, h: u32, px: Seq<u8>) -> bool {
    let n = px.len() / 4;
    if all_opaque(px) {
        new_result_ok(r, w, h, ColorType::Rgb, SampleData::U8(rgb_prefix(px, n as int)))
    } else if !premultiplied(px) {
        r matches Err(Error::Codec(m)) && m@ == "rendered pixels are not premultiplied"@
    } else {
        new_result_ok(r, w, h, ColorType::Rgba, SampleData::U8(demultiplied_prefix(px, n as int)))
    }
}

/// The image of a rendering: the premultiplied RGBA bytes the renderer
/// drew, four a pixel.
///
/// # Errors
/// `Codec` for pixels that are not premultiplied, and what
/// [`Image::from_u8`] refuses.
pub fn svg_image(width: u32, height: u32, px: &[u8]) -> (r: Result<Image, Error>)
    ensures
        svg_image_ok(r, width, height, px@),
{
    let n = px.len() / 4;
    let mut opaque = true;
    let mut i: usize = 0;
    while i < n
        invariant
            n == px@.len() / 4,
            px@.len() == px.len(),
            i <= n,
            opaque == (forall|j: int| 0 <= j < i ==> #[trigger] px@[4 * j + 3] == 255),
        decreases n - i,
    {
        if px[4 * i + 3] != 255 {
            opaque = false;
        }
        i = i + 1;
    }
    if opaque {
        let mut rgb: Vec<u8> = Vec::new();
        let mut i: usize = 0;
        while i < n
            invariant
                n == px@.len() / 4,
                px@.len() == px.len(),
                i <= n,
                rgb@ == rgb_prefix(px@, i as int),
            decreases n - i,
        {
            rgb.push(px[4 * i]);
            rgb.push(px[4 * i + 1]);
            rgb.push(px[4 * i + 2]);
            i = i + 1;
            assert(rgb@ =~= rgb_prefix(px@, i as int));
        }
        return Image::from_u8(width, height, ColorType::Rgb, rgb);
    }
    let mut rgba: Vec<u8> = Vec::new();
    let mut i: usize = 0;
    while i < n
        invariant
            n == px@.len() / 4,
            px@.len() == px.len(),
            i <= n,
            rgba@ == demultiplied_prefix(px@, i as int),
            forall|j: int| 0 <= j < i ==> #[trigger] px@[4 * j] <= px@[4 * j + 3] && px@[4 * j + 1] <= px@[4 * j + 3]
                && px@[4 * j + 2] <= px@[4 * j + 3],
        decreases n - i,
    {
        let a = px[4 * i + 3];
        match demultiply(px[4 * i], px[4 * i + 1], px[4 * i + 2], a) {
            Some((r, g, b)) => {
                rgba.push(r);
                rgba.push(g);
                rgba.push(b);
                rgba.push(a);
            },
            None => {
                let mut m = String::new();
                push_str(&mut m, "rendered pixels are not premultiplied");
                return Err(Error::Codec(m));
            },
        }
        let ghost k = i as int;
        i = i + 1;
        assert forall|j: int| 0 <= j < i implies #[trigger] px@[4 * j] <= px@[4 * j + 3] && px@[4 * j + 1] <= px@[4 * j + 3]
            && px@[4 * j + 2] <= px@[4 * j + 3] by {
            if j == k {
                assert(px@[4 * k] <= px@[4 * k + 3]);
            }
        }
        assert(rgba@ =~= demultiplied_prefix(px@, i as int));
    }
    Image::from_u8(width, height, ColorType::Rgba, rgba)
}

/// What decoding a document without text gives: the parser's refusal,
/// the pixel limit's on its size; then the renderer's refusal of that
/// size, or the image of some rendering of four bytes a pixel, as
/// [`svg_image`] makes it.
pub open spec fn svg_plain_decode_ok(r: Result<Image, Error>, bytes: Seq<u8>, opts: DecodeOpts) -> bool {
    match svg_plain_size(bytes) {
        Err(m) => r matches Err(Error::Codec(s)) && s@ == m,
        Ok((w, h)) => if w * h > opts.max_pixels {
            r matches Err(Error::TooLarge { pixels, limit }) && pixels == w * h && limit == opts.max_pixels
        } else {
            (r matches Err(Error::Codec(s)) && s@ == "SVG size is empty or too large"@)
                || exists|px: Seq<u8>| px.len() == w * h * 4 && #[trigger] svg_image_ok(r, w, h, px)
        },
    }
}

/// SVG decoder: renders the document at its own size.
#[derive(Debug, Clone, Copy, Default)]
pub struct SvgDecoder;

impl SvgDecoder {
    /// What this decoder is.
    pub fn caps(&self) -> (r: DecoderCaps)
        ensures
            r.format == Format::Svg && !r.animation && r.tier == Tier::Portable,
    {
        DecoderCaps { format: Format::Svg, name: "resvg", animation: false, tier: Tier::Portable }
    }

    /// The root-element sniff.
    pub fn probe(&self, bytes: &[u8]) -> (r: Option<FormatInfo>)
        ensures
            r == if spec_root_is_svg(bytes@) { Some(FormatInfo { format: Format::Svg, animated: false }) } else {
                None
            },
    {
        if root_is_svg(bytes) {
            Some(FormatInfo { format: Format::Svg, animated: false })
        } else {
            None
        }
    }

    /// The document's size, when the sniff accepts it and it parses:
    /// whole pixels, at least one each way.
    pub fn dimensions(&self, bytes: &[u8]) -> (r: Option<(u32, u32)>)
        ensures
            r is Some ==> spec_root_is_svg(bytes@),
            r matches Some((w, h)) ==> w >= 1 && h >= 1,
            spec_root_is_svg(bytes@) && !spec_has_text(bytes@) ==> r == match svg_plain_size(bytes@) {
                Ok(s) => Some(s),
                Err(_) => None::<(u32, u32)>,
            },
    {
        if !root_is_svg(bytes) {
            return None;
        }
        if has_text(bytes) {
            match parse_with_fonts(bytes) {
                Ok(t) => Some(tree_size(&t)),
                Err(_) => None,
            }
        } else {
            match plain_size(bytes) {
                Ok(s) => Some(s),
                Err(_) => None,
            }
        }
    }

    /// Renders the document at its own size: RGB when nothing in it is
    /// translucent, else RGBA.
    ///
    /// # Errors
    /// The parser's message as `Codec`, `TooLarge` above the pixel limit,
    /// `Codec` when the renderer refuses the size, and what
    /// [`svg_image`] refuses.
    pub fn decode(&self, bytes: &[u8], opts: &DecodeOpts) -> (r: Result<Image, Error>)
        ensures
            r matches Err(Error::TooLarge { pixels, limit }) ==> limit == opts.max_pixels && pixels > limit,
            r matches Ok(img) ==> img@.width * img@.height <= opts.max_pixels
                && (img@.color == ColorType::Rgb || img@.color == ColorType::Rgba) && img@.samples is U8,
            !spec_has_text(bytes@) ==> svg_plain_decode_ok(r, bytes@, *opts),
    {
        if !has_text(bytes) {
            let (width, height) = match plain_size(bytes) {
                Ok(s) => s,
                Err(m) => return Err(Error::Codec(m)),
            };
            match opts.check_pixels(width, height) {
                Ok(()) => {},
                Err(e) => return Err(e),
            }
            let px = match plain_render(bytes, width, height) {
                Some(px) => px,
                None => {
                    let mut m = String::new();
                    push_str(&mut m, "SVG size is empty or too large");
                    return Err(Error::Codec(m));
                },
            };
            let r = svg_image(width, height, px.as_slice());
            return r;
        }
        let tree = match parse_with_fonts(bytes) {
            Ok(t) => t,
            Err(m) => return Err(Error::Codec(m)),
        };
        let (width, height) = tree_size(&tree);
        match opts.check_pixels(width, height) {
            Ok(()) => {},
            Err(e) => return Err(e),
        }
        let px = match rasterise(&tree, width, height) {
            Some(px) => px,
            None => {
                let mut m = String::new();
                push_str(&mut m, "SVG size is empty or too large");
                return Err(Error::Codec(m));
            },
        };
        svg_image(width, height, px.as_slice())
    }
}

} // verus!
