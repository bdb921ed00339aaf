//! HEIC container parsing every build gets, decoder or not: the brand
//! sniff, and a walk of the `meta` box for what the primary item looks
//! like before a single pixel is decoded. Only `ftyp`, `pitm`, and the
//! primary item's `ispe`, `clap`, `irot`, `imir` and `colr` properties are
//! read. Everything is bounds-checked and a malformed file yields `None`.
//!
//! Boxes are located by absolute offsets into the one input buffer: a box
//! is `(type, body start, body end)`, its type the four-character code read
//! as a big-endian number.

use vstd::prelude::*;
use crate::format::{Format, FormatInfo};
use crate::image::{Orientation, spec_then, spec_swaps_axes, read16, read32, blob_view};

verus! {

/// `ftyp`.
pub const FTYP: u32 = 0x6674_7970;
/// `meta`.
pub const META: u32 = 0x6d65_7461;
/// `pitm`.
pub const PITM: u32 = 0x7069_746d;
/// `iprp`.
pub const IPRP: u32 = 0x6970_7270;
/// `ipco`.
pub const IPCO: u32 = 0x6970_636f;
/// `ipma`.
pub const IPMA: u32 = 0x6970_6d61;
/// `ispe`.
pub const ISPE: u32 = 0x6973_7065;
/// `clap`.
pub const CLAP: u32 = 0x636c_6170;
/// `irot`.
pub const IROT: u32 = 0x6972_6f74;
/// `imir`.
pub const IMIR: u32 = 0x696d_6972;
/// `colr`.
pub const COLR: u32 = 0x636f_6c72;
/// `prof`, an ICC profile colour box.
pub const PROF: u32 = 0x7072_6f66;
/// `rICC`, a restricted ICC profile colour box.
pub const RICC: u32 = 0x7249_4343;

/// Brands of HEVC-coded still images: `heic`, `heix`, `heim`, `heis`.
pub open spec fn is_still_brand(b: int) -> bool {
    b == 0x6865_6963 || b == 0x6865_6978 || b == 0x6865_696d || b == 0x6865_6973
}

/// Brands of HEVC-coded sequences: `hevc`, `hevx`, `hevm`, `hevs`.
pub open spec fn is_sequence_brand(b: int) -> bool {
    b == 0x6865_7663 || b == 0x6865_7678 || b == 0x6865_766d || b == 0x6865_7673
}

/// A big-endian 16-bit value at `at`, if it ends by `hi`.
pub open spec fn be16_in(d: Seq<u8>, at: int, hi: int) -> Option<int> {
    if at + 2 <= hi { read16(d, at, true) } else { None }
}

/// A big-endian 32-bit value at `at`, if it ends by `hi`.
pub open spec fn be32_in(d: Seq<u8>, at: int, hi: int) -> Option<int> {
    if at + 4 <= hi { read32(d, at, true) } else { None }
}

/// A big-endian 64-bit value at `at`, if it ends by `hi`.
pub open spec fn be64_in(d: Seq<u8>, at: int, hi: int) -> Option<int> {
    match (be32_in(d, at, hi), be32_in(d, at + 4, hi)) {
        (Some(a), Some(b)) => Some(a * 0x1_0000_0000 + b),
        _ => None,
    }
}

/// The one box starting at `at` and ending by `hi`: `[size:4][type:4]`,
/// `size == 1` meaning a 64-bit size follows and `size == 0` meaning "to
/// the end". `(type, body start, body end)`.
pub open spec fn split_box_at(d: Seq<u8>, at: int, hi: int) -> Option<(int, int, int)> {
    match (be32_in(d, at, hi), be32_in(d, at + 4, hi)) {
        (Some(size32), Some(kind)) => {
            let hs: Option<(int, int)> = if size32 == 0 {
                Some((8, hi - at))
            } else if size32 == 1 {
                match be64_in(d, at + 8, hi) {
                    Some(s) => Some((16, s)),
                    None => None,
                }
            } else {
                Some((8, size32))
            };
            match hs {
                Some((header, size)) => if size < header || size > hi - at {
                    None
                } else {
                    Some((kind, at + header, at + size))
                },
                None => None,
            }
        },
        _ => None,
    }
}

/// The boxes laid end to end from `at` up to `hi`, stopping at the first
/// one that does not fit.
pub open spec fn boxes_in(d: Seq<u8>, at: int, hi: int) -> Seq<(int, int, int)>
    decreases hi - at,
{
    match split_box_at(d, at, hi) {
        Some((kind, s, e)) => if e > at {
            seq![(kind, s, e)] + boxes_in(d, e, hi)
        } else {
            Seq::empty()
        },
        None => Seq::empty(),
    }
}

/// The brands of an `ftyp` body from `s` to `e`: the major brand, then
/// every whole four-byte compatible brand after the minor version.
pub open spec fn brands(d: Seq<u8>, s: int, e: int) -> Seq<int> {
    seq![be32_in(d, s, e).unwrap()] + Seq::new(((e - s - 8) / 4) as nat, |i: int| be32_in(d, s + 8 + 4 * i, e).unwrap())
}

/// The brand sniff: an HEVC-coded HEIF when the first box is an `ftyp` of
/// at least eight bytes listing a still or sequence brand; animated when
/// the major brand is a sequence brand.
pub open spec fn spec_probe(d: Seq<u8>) -> Option<FormatInfo> {
    let bs = boxes_in(d, 0, d.len() as int);
    if bs.len() == 0 {
        None
    } else {
        let (kind, s, e) = bs[0];
        if kind != FTYP || e - s < 8 {
            None
        } else {
            let list = brands(d, s, e);
            if exists|i: int| 0 <= i < list.len() && (is_still_brand(list[i]) || is_sequence_brand(list[i])) {
                Some(FormatInfo { format: Format::Heic, animated: is_sequence_brand(list[0]) })
            } else {
                None
            }
        }
    }
}

/// Reads a big-endian 16-bit value at `at` ending by `hi`.
fn be16(d: &[u8], at: usize, hi: usize) -> (r: Option<u64>)
    requires
        hi <= d@.len(),
    ensures
        match be16_in(d@, at as int, hi as int) {
            Some(v) => r == Some(v as u64),
            None => r.is_none(),
        },
{
    if hi < 2 || at > hi - 2 {
        return None;
    }
    Some((d[at] as u64) * 256 + (d[at + 1] as u64))
}

/// Reads a big-endian 32-bit value at `at` ending by `hi`.
fn be32(d: &[u8], at: usize, hi: usize) -> (r: Option<u64>)
    requires
        hi <= d@.len(),
    ensures
        match be32_in(d@, at as int, hi as int) {
            Some(v) => r == Some(v as u64) && v <= u32::MAX,
            None => r.is_none(),
        },
{
    if hi < 4 || at > hi - 4 {
        return None;
    }
    let (b0, b1, b2, b3) = (d[at] as u64, d[at + 1] as u64, d[at + 2] as u64, d[at + 3] as u64);
    Some(((b0 * 256 + b1) * 256 + b2) * 256 + b3)
}

/// Reads a big-endian 64-bit value at `at` ending by `hi`; `None` as well
/// when it does not fit in `u64`, which it always does.
fn be64(d: &[u8], at: usize, hi: usize) -> (r: Option<u64>)
    requires
        hi <= d@.len(),
    ensures
        match be64_in(d@, at as int, hi as int) {
            Some(v) => r == Some(v as u64) && v <= u64::MAX,
            None => r.is_none(),
        },
{
    if at > usize::MAX - 4 {
        return None;
    }
    let a = be32(d, at, hi);
    let b = be32(d, at + 4, hi);
    match (a, b) {
        (Some(a), Some(b)) => {
            proof {
                assert(a * 0x1_0000_0000 + b <= u64::MAX) by (nonlinear_arith)
                    requires a <= u32::MAX, b <= u32::MAX;
            }
            Some(a * 0x1_0000_0000 + b)
        },
        _ => None,
    }
}

/// Splits off the box at `at`, ending by `hi`.
fn split_box(d: &[u8], at: usize, hi: usize) -> (r: Option<(u32, usize, usize)>)
    requires
        at <= hi <= d@.len(),
    ensures
        match split_box_at(d@, at as int, hi as int) {
            Some((k, s, e)) => r == Some((k as u32, s as usize, e as usize)) && at < s <= e <= hi,
            None => r.is_none(),
        },
{
    if at > hi || hi - at < 4 {
        return None;
    }
    let size32 = match be32(d, at, hi) {
        Some(v) => v,
        None => return None,
    };
    let kind = match be32(d, at + 4, hi) {
        Some(v) => v,
        None => return None,
    };
    let room = (hi - at) as u64;
    let (header, size): (u64, u64) = if size32 == 0 {
        (8, room)
    } else if size32 == 1 {
        match be64(d, at + 8, hi) {
            Some(s) => (16, s),
            None => return None,
        }
    } else {
        (8, size32)
    };
    if size < header || size > room {
        return None;
    }
    Some((kind as u32, at + header as usize, at + size as usize))
}

/// The boxes laid end to end from `at` up to `hi`.
fn boxes(d: &[u8], lo: usize, hi: usize) -> (r: Vec<(u32, usize, usize)>)
    requires
        lo <= hi <= d@.len(),
    ensures
        r@.len() == boxes_in(d@, lo as int, hi as int).len(),
        forall|i: int| 0 <= i < r@.len() ==> {
            let (k, s, e) = #[trigger] boxes_in(d@, lo as int, hi as int)[i];
            r@[i] == (k as u32, s as usize, e as usize) && lo <= s <= e <= hi
        },
        forall|i: int| 0 <= i < r@.len() ==> lo <= (#[trigger] r@[i]).1 <= r@[i].2 <= hi,
{
    let mut out: Vec<(u32, usize, usize)> = Vec::new();
    let mut at = lo;
    let ghost done: Seq<(int, int, int)> = Seq::empty();
    while at < hi
        invariant
            lo <= at <= hi <= d@.len(),
            boxes_in(d@, lo as int, hi as int) == done + boxes_in(d@, at as int, hi as int),
            out@.len() == done.len(),
            forall|i: int| 0 <= i < done.len() ==> {
                let (k, s, e) = #[trigger] done[i];
                out@[i] == (k as u32, s as usize, e as usize) && lo <= s <= e <= hi
            },
            forall|i: int| 0 <= i < out@.len() ==> lo <= (#[trigger] out@[i]).1 <= out@[i].2 <= hi,
        decreases hi - at,
    {
        match split_box(d, at, hi) {
            Some((k, s, e)) => {
                proof {
                    assert(boxes_in(d@, at as int, hi as int) == seq![(k as int, s as int, e as int)]
                        + boxes_in(d@, e as int, hi as int));
                    assert(done + boxes_in(d@, at as int, hi as int) =~= done.push((k as int, s as int, e as int))
                        + boxes_in(d@, e as int, hi as int));
                    done = done.push((k as int, s as int, e as int));
                }
                out.push((k, s, e));
                at = e;
            },
            None => {
                assert(boxes_in(d@, at as int, hi as int) =~= Seq::<(int, int, int)>::empty());
                assert(done + boxes_in(d@, at as int, hi as int) =~= done);
                return out;
            },
        }
    }
    assert(boxes_in(d@, at as int, hi as int) =~= Seq::<(int, int, int)>::empty());
    assert(done + boxes_in(d@, at as int, hi as int) =~= done);
    out
}

/// The brand sniff: `Some` for an HEVC-coded HEIF, `None` for anything
/// else, AVIF included.
pub fn probe(bytes: &[u8]) -> (r: Option<FormatInfo>)
    ensures
        r == spec_probe(bytes@),
{
    let n = bytes.len();
    let first = split_box(bytes, 0, n);
    proof {
        let bs = boxes_in(bytes@, 0, n as int);
        match split_box_at(bytes@, 0, n as int) {
            Some((k, s, e)) => assert(bs[0] == (k, s, e)),
            None => {},
        }
    }
    let (kind, s, e) = match first {
        Some(b) => b,
        None => return None,
    };
    if kind != FTYP || e - s < 8 {
        return None;
    }
    let ghost list = brands(bytes@, s as int, e as int);
    let major = match be32(bytes, s, e) {
        Some(v) => v,
        None => return None,
    };
    let mut still = is_still(major);
    let mut sequence = is_sequence(major);
    let count = (e - s - 8) / 4;
    let mut i: usize = 0;
    while i < count
        invariant
            s + 8 <= e <= n == bytes@.len(),
            count == (e - s - 8) / 4,
            list == brands(bytes@, s as int, e as int),
            list.len() == count + 1,
            list[0] == major,
            i <= count,
            (still || sequence) == exists|j: int| 0 <= j < i + 1 && (is_still_brand(list[j]) || is_sequence_brand(list[j])),
        decreases count - i,
    {
        proof {
            assert(s + 8 + 4 * i + 4 <= e) by (nonlinear_arith)
                requires i < count, count == (e - s - 8) / 4, s + 8 <= e;
        }
        let b = match be32(bytes, s + 8 + 4 * i, e) {
            Some(v) => v,
            None => return None,
        };
        assert(list[i + 1] == b);
        still = still || is_still(b);
        sequence = sequence || is_sequence(b);
        i = i + 1;
    }
    if still || sequence {
        Some(FormatInfo { format: Format::Heic, animated: is_sequence(major) })
    } else {
        None
    }
}

fn is_still(b: u64) -> (r: bool)
    ensures
        r == is_still_brand(b as int),
{
    b == 0x6865_6963 || b == 0x6865_6978 || b == 0x6865_696d || b == 0x6865_6973
}

fn is_sequence(b: u64) -> (r: bool)
    ensures
        r == is_sequence_brand(b as int),
{
    b == 0x6865_7663 || b == 0x6865_7678 || b == 0x6865_766d || b == 0x6865_7673
}

/// What the walk of the `meta` box keeps: the primary item, and the
/// bodies of the last `ipco` and `ipma` boxes of any `iprp`.
pub struct MetaScan {
    /// The primary item's ID, as the last `pitm` gives it.
    pub primary: Option<int>,
    /// Body of the property container.
    pub ipco: Option<(int, int)>,
    /// Body of the property associations.
    pub ipma: Option<(int, int)>,
}

/// `pitm`: the primary item's ID. A full box; version 0 stores 16 bits.
pub open spec fn spec_primary_item(d: Seq<u8>, s: int, e: int) -> Option<int> {
    if s >= e {
        None
    } else if d[s] == 0 {
        be16_in(d, s + 4, e)
    } else {
        be32_in(d, s + 4, e)
    }
}

/// The `ipco` and `ipma` bodies among the children of an `iprp`, the last
/// of each winning.
pub open spec fn scan_iprp(kids: Seq<(int, int, int)>, ipco: Option<(int, int)>, ipma: Option<(int, int)>) -> (Option<(int, int)>, Option<(int, int)>)
    decreases kids.len(),
{
    if kids.len() == 0 {
        (ipco, ipma)
    } else {
        let (c, m) = scan_iprp(kids.drop_last(), ipco, ipma);
        let (k, s, e) = kids.last();
        if k == IPCO {
            (Some((s, e)), m)
        } else if k == IPMA {
            (c, Some((s, e)))
        } else {
            (c, m)
        }
    }
}

/// One child of `meta` folded into the scan.
pub open spec fn meta_step(d: Seq<u8>, st: MetaScan, b: (int, int, int)) -> MetaScan {
    let (k, s, e) = b;
    if k == PITM {
        MetaScan { primary: spec_primary_item(d, s, e), ..st }
    } else if k == IPRP {
        let (c, m) = scan_iprp(boxes_in(d, s, e), st.ipco, st.ipma);
        MetaScan { ipco: c, ipma: m, ..st }
    } else {
        st
    }
}

/// The children of `meta`, scanned in order.
pub open spec fn scan_meta(d: Seq<u8>, kids: Seq<(int, int, int)>) -> MetaScan
    decreases kids.len(),
{
    if kids.len() == 0 {
        MetaScan { primary: None, ipco: None, ipma: None }
    } else {
        meta_step(d, scan_meta(d, kids.drop_last()), kids.last())
    }
}

/// The index of the first box of the given type.
pub open spec fn first_of_kind(bs: Seq<(int, int, int)>, kind: int, i: int) -> Option<int>
    decreases bs.len() - i,
{
    if i >= bs.len() || i < 0 {
        None
    } else if bs[i].0 == kind {
        Some(i)
    } else {
        first_of_kind(bs, kind, i + 1)
    }
}

/// One property index: 15 bits when wide, 7 otherwise; the top bit flags
/// the property as essential and is dropped.
pub open spec fn property_index(d: Seq<u8>, at: int, wide: bool) -> int {
    if wide {
        (d[at] * 256 + d[at + 1]) % 0x8000
    } else {
        (d[at] % 0x80) as int
    }
}

/// `count` property indices laid out from `at`.
pub open spec fn indices_at(d: Seq<u8>, at: int, count: int, wide: bool) -> Seq<int> {
    let w = if wide { 2int } else { 1int };
    Seq::new(count as nat, |j: int| property_index(d, at + w * j, wide))
}

/// The entries of an `ipma` from `at` on, `left` of them still to read:
/// the property indices of `item`, `None` when it is not there or an entry
/// does not fit.
pub open spec fn assoc_walk(d: Seq<u8>, hi: int, version: int, wide: bool, item: int, left: int, at: int) -> Option<Seq<int>>
    decreases left,
{
    if left <= 0 {
        None
    } else {
        let idw = if version == 0 { 2int } else { 4int };
        let id = if version == 0 { be16_in(d, at, hi) } else { be32_in(d, at, hi) };
        match id {
            None => None,
            Some(id) => {
                let at1 = at + idw;
                if at1 >= hi {
                    None
                } else {
                    let count = d[at1] as int;
                    let iw = if wide { 2int } else { 1int };
                    let at2 = at1 + 1;
                    if at2 + iw * count > hi {
                        None
                    } else if id == item {
                        Some(indices_at(d, at2, count, wide))
                    } else {
                        assoc_walk(d, hi, version, wide, item, left - 1, at2 + iw * count)
                    }
                }
            },
        }
    }
}

/// `ipma`: the property indices associated with `item`, in the order the
/// file lists them; empty when the box does not parse or lacks the item.
pub open spec fn spec_associations(d: Seq<u8>, s: int, e: int, item: int) -> Seq<int> {
    if s + 3 >= e {
        Seq::empty()
    } else {
        match be32_in(d, s + 4, e) {
            None => Seq::empty(),
            Some(n) => match assoc_walk(d, e, d[s] as int, d[s + 3] % 2 == 1, item, n, s + 8) {
                Some(v) => v,
                None => Seq::empty(),
            },
        }
    }
}

/// `ispe`: a full box holding the coded width and height, both non-zero.
pub open spec fn spec_ispe(d: Seq<u8>, s: int, e: int) -> Option<(int, int)> {
    match (be32_in(d, s + 4, e), be32_in(d, s + 8, e)) {
        (Some(w), Some(h)) => if w > 0 && h > 0 { Some((w, h)) } else { None },
        _ => None,
    }
}

/// One `clap` fraction, rounded to the nearest integer, if the
/// denominator is non-zero and the result fits in 32 bits.
pub open spec fn clap_fraction(d: Seq<u8>, at: int, e: int) -> Option<int> {
    match (be32_in(d, at, e), be32_in(d, at + 4, e)) {
        (Some(n), Some(den)) => if den > 0 && (n + den / 2) / den <= u32::MAX {
            Some((n + den / 2) / den)
        } else {
            None
        },
        _ => None,
    }
}

/// `clap`: the clean aperture's size, both sides non-zero.
pub open spec fn spec_clap(d: Seq<u8>, s: int, e: int) -> Option<(int, int)> {
    match (clap_fraction(d, s, e), clap_fraction(d, s + 8, e)) {
        (Some(w), Some(h)) => if w > 0 && h > 0 { Some((w, h)) } else { None },
        _ => None,
    }
}

/// `irot`: quarter turns anticlockwise. The EXIF numbering is clockwise,
/// so one quarter turn anticlockwise is `Rotate270`.
pub open spec fn spec_irot(d: Seq<u8>, s: int, e: int) -> Orientation {
    let a = if s < e { d[s] % 4 } else { 0 };
    if a == 1 {
        Orientation::Rotate270
    } else if a == 2 {
        Orientation::Rotate180
    } else if a == 3 {
        Orientation::Rotate90
    } else {
        Orientation::Normal
    }
}

/// `imir`: axis 0 exchanges top and bottom, 1 exchanges left and right.
pub open spec fn spec_imir(d: Seq<u8>, s: int, e: int) -> Orientation {
    if s < e && d[s] % 2 == 1 {
        Orientation::FlipHorizontal
    } else {
        Orientation::FlipVertical
    }
}

/// `n` quarter turns anticlockwise, one after the other.
pub open spec fn quarter_turns_left(n: nat) -> Orientation
    decreases n,
{
    if n == 0 {
        Orientation::Normal
    } else {
        spec_then(quarter_turns_left((n - 1) as nat), Orientation::Rotate270)
    }
}

/// `irot` turns the picture anticlockwise by as many quarter turns as its
/// angle byte says, counted modulo four, and a missing byte turns nothing;
/// `imir` mirrors top to bottom for axis 0 and left to right for axis 1.
pub proof fn lemma_heif_transforms(d: Seq<u8>, s: int, e: int)
    ensures
        s < e ==> spec_irot(d, s, e) == quarter_turns_left((d[s] % 4) as nat),
        s >= e ==> spec_irot(d, s, e) == Orientation::Normal,
        s < e && d[s] % 2 == 0 ==> spec_imir(d, s, e) == Orientation::FlipVertical,
        s < e && d[s] % 2 == 1 ==> spec_imir(d, s, e) == Orientation::FlipHorizontal,
{
    reveal_with_fuel(quarter_turns_left, 4);
}

/// What the primary item's properties say so far.
pub struct PropScan {
    /// Coded size.
    pub ispe: Option<(int, int)>,
    /// Clean aperture.
    pub aperture: Option<(int, int)>,
    /// Transforms composed in file order.
    pub orientation: Orientation,
    /// The range of an ICC profile.
    pub icc: Option<(int, int)>,
}

/// One associated property folded into the scan.
pub open spec fn prop_step(d: Seq<u8>, props: Seq<(int, int, int)>, st: PropScan, index: int) -> PropScan {
    if index < 1 || index - 1 >= props.len() {
        st
    } else {
        let (k, s, e) = props[index - 1];
        if k == ISPE {
            PropScan { ispe: spec_ispe(d, s, e), ..st }
        } else if k == CLAP {
            PropScan { aperture: spec_clap(d, s, e), ..st }
        } else if k == IROT {
            PropScan { orientation: spec_then(st.orientation, spec_irot(d, s, e)), ..st }
        } else if k == IMIR {
            PropScan { orientation: spec_then(st.orientation, spec_imir(d, s, e)), ..st }
        } else if k == COLR && e - s >= 4 && (be32_in(d, s, e) == Some(PROF as int) || be32_in(d, s, e)
            == Some(RICC as int)) {
            PropScan { icc: Some((s + 4, e)), ..st }
        } else {
            st
        }
    }
}

/// The associated properties, scanned in file order.
pub open spec fn scan_props(d: Seq<u8>, props: Seq<(int, int, int)>, indices: Seq<int>) -> PropScan
    decreases indices.len(),
{
    if indices.len() == 0 {
        PropScan { ispe: None, aperture: None, orientation: Orientation::Normal, icc: None }
    } else {
        prop_step(d, props, scan_props(d, props, indices.drop_last()), indices.last())
    }
}

/// What the container says about the primary image.
pub struct HeaderView {
    /// Displayed width.
    pub width: int,
    /// Displayed height.
    pub height: int,
    /// The transform that brings the decoded, cropped frame upright.
    pub orientation: Orientation,
    /// The ICC profile of a `prof` or `rICC` colour box.
    pub icc: Option<Seq<u8>>,
}

/// The header of a HEIC: the primary item's size, clamped to its clean
/// aperture and swapped when the transforms swap the axes, the transforms
/// composed in file order, and an ICC profile. `None` when the bytes are
/// not a HEIC or the `meta` box does not describe a primary item with a
/// size.
pub open spec fn spec_header(d: Seq<u8>) -> Option<HeaderView> {
    let top = boxes_in(d, 0, d.len() as int);
    if spec_probe(d).is_none() {
        None
    } else {
        match first_of_kind(top, META as int, 0) {
            None => None,
            Some(mi) => {
                let (_, ms, me) = top[mi];
                if me - ms < 4 {
                    None
                } else {
                    let scan = scan_meta(d, boxes_in(d, ms + 4, me));
                    match (scan.ipco, scan.ipma, scan.primary) {
                        (Some((cs, ce)), Some((as_, ae)), Some(item)) => {
                            let props = boxes_in(d, cs, ce);
                            let p = scan_props(d, props, spec_associations(d, as_, ae, item));
                            match p.ispe {
                                None => None,
                                Some((w0, h0)) => {
                                    let (w1, h1) = match p.aperture {
                                        Some((aw, ah)) => (if aw < w0 { aw } else { w0 }, if ah < h0 { ah } else { h0 }),
                                        None => (w0, h0),
                                    };
                                    let (w, h) = if spec_swaps_axes(p.orientation) { (h1, w1) } else { (w1, h1) };
                                    Some(HeaderView {
                                        width: w,
                                        height: h,
                                        orientation: p.orientation,
                                        icc: match p.icc {
                                            Some((is, ie)) => Some(d.subrange(is, ie)),
                                            None => None,
                                        },
                                    })
                                },
                            }
                        },
                        _ => None,
                    }
                }
            },
        }
    }
}

/// The primary item's associated properties, scanned in file order, when
/// the bytes are a HEIC whose `meta` box names a primary item and holds
/// its property boxes and associations.
pub open spec fn primary_props(d: Seq<u8>) -> Option<PropScan> {
    let top = boxes_in(d, 0, d.len() as int);
    if spec_probe(d).is_none() {
        None
    } else {
        match first_of_kind(top, META as int, 0) {
            None => None,
            Some(mi) => {
                let (_, ms, me) = top[mi];
                if me - ms < 4 {
                    None
                } else {
                    let scan = scan_meta(d, boxes_in(d, ms + 4, me));
                    match (scan.ipco, scan.ipma, scan.primary) {
                        (Some((cs, ce)), Some((as_, ae)), Some(item)) => Some(
                            scan_props(d, boxes_in(d, cs, ce), spec_associations(d, as_, ae, item)),
                        ),
                        _ => None,
                    }
                }
            },
        }
    }
}

/// The coded size, each side clamped to the clean aperture's when there
/// is one.
pub open spec fn clean_size(p: PropScan) -> Option<(int, int)> {
    match p.ispe {
        None => None,
        Some((w0, h0)) => match p.aperture {
            Some((aw, ah)) => Some((if aw < w0 { aw } else { w0 }, if ah < h0 { ah } else { h0 })),
            None => Some((w0, h0)),
        },
    }
}

/// Every size a property scan holds is non-zero.
proof fn lemma_scan_sizes_positive(d: Seq<u8>, props: Seq<(int, int, int)>, indices: Seq<int>)
    ensures
        scan_props(d, props, indices).ispe matches Some((w, h)) ==> w > 0 && h > 0,
        scan_props(d, props, indices).aperture matches Some((w, h)) ==> w > 0 && h > 0,
    decreases indices.len(),
{
    if indices.len() > 0 {
        lemma_scan_sizes_positive(d, props, indices.drop_last());
    }
}

/// A header that parses comes from bytes the sniff accepts, and its size
/// is the primary item's coded size clamped to its clean aperture, both
/// sides non-zero, with width and height exchanged exactly when its
/// orientation swaps the axes.
pub proof fn lemma_header_size(d: Seq<u8>)
    requires
        spec_header(d) is Some,
    ensures
        spec_probe(d) is Some,
        primary_props(d) matches Some(p) && clean_size(p) matches Some((cw, ch)) && {
            let h = spec_header(d).unwrap();
            &&& cw > 0 && ch > 0
            &&& h.orientation == p.orientation
            &&& (h.width, h.height) == if spec_swaps_axes(h.orientation) { (ch, cw) } else { (cw, ch) }
        },
{
    let top = boxes_in(d, 0, d.len() as int);
    let mi = first_of_kind(top, META as int, 0).unwrap();
    let (_, ms, me) = top[mi];
    let scan = scan_meta(d, boxes_in(d, ms + 4, me));
    let (cs, ce) = scan.ipco.unwrap();
    let (as_, ae) = scan.ipma.unwrap();
    let item = scan.primary.unwrap();
    lemma_scan_sizes_positive(d, boxes_in(d, cs, ce), spec_associations(d, as_, ae, item));
}

/// A range of the input as the spec reads it.
pub open spec fn range_view(o: Option<(usize, usize)>) -> Option<(int, int)> {
    match o {
        Some((s, e)) => Some((s as int, e as int)),
        None => None,
    }
}

/// The boxes of a `Vec` as the spec reads them.
pub open spec fn boxes_view(v: Seq<(u32, usize, usize)>) -> Seq<(int, int, int)> {
    Seq::new(v.len(), |i: int| (v[i].0 as int, v[i].1 as int, v[i].2 as int))
}

proof fn lemma_boxes_view(d: Seq<u8>, lo: int, hi: int, v: Seq<(u32, usize, usize)>)
    requires
        v.len() == boxes_in(d, lo, hi).len(),
        forall|i: int| 0 <= i < v.len() ==> {
            let (k, s, e) = #[trigger] boxes_in(d, lo, hi)[i];
            v[i] == (k as u32, s as usize, e as usize) && lo <= s <= e <= hi
        },
        0 <= lo,
        hi <= usize::MAX,
    ensures
        boxes_view(v) == boxes_in(d, lo, hi),
{
    assert forall|i: int| 0 <= i < v.len() implies #[trigger] boxes_view(v)[i] == boxes_in(d, lo, hi)[i] by {
        let (k, s, e) = boxes_in(d, lo, hi)[i];
        assert(v[i] == (k as u32, s as usize, e as usize));
        lemma_kind_fits(d, lo, hi, i);
    }
    assert(boxes_view(v) =~= boxes_in(d, lo, hi));
}

/// Box types are four bytes, so they fit in 32 bits.
proof fn lemma_kind_fits(d: Seq<u8>, lo: int, hi: int, i: int)
    requires
        0 <= i < boxes_in(d, lo, hi).len(),
    ensures
        0 <= boxes_in(d, lo, hi)[i].0 <= u32::MAX,
    decreases hi - lo,
{
    match split_box_at(d, lo, hi) {
        Some((k, s, e)) => {
            if e > lo {
                if i > 0 {
                    lemma_kind_fits(d, e, hi, i - 1);
                    assert(boxes_in(d, lo, hi)[i] == boxes_in(d, e, hi)[i - 1]);
                }
            }
        },
        None => {},
    }
}

fn primary_item(d: &[u8], s: usize, e: usize) -> (r: Option<u64>)
    requires
        s <= e <= d@.len(),
    ensures
        match spec_primary_item(d@, s as int, e as int) {
            Some(v) => r == Some(v as u64),
            None => r.is_none(),
        },
{
    if s >= e {
        return None;
    }
    if s > usize::MAX - 4 {
        return None;
    }
    if d[s] == 0 {
        be16(d, s + 4, e)
    } else {
        be32(d, s + 4, e)
    }
}

/// The `ipco` and `ipma` bodies among the children of an `iprp`.
fn scan_iprp_exec(d: &[u8], s: usize, e: usize, ipco: Option<(usize, usize)>, ipma: Option<(usize, usize)>)
    -> (r: (Option<(usize, usize)>, Option<(usize, usize)>))
    requires
        s <= e <= d@.len(),
    ensures
        (range_view(r.0), range_view(r.1)) == scan_iprp(boxes_in(d@, s as int, e as int), range_view(ipco), range_view(ipma)),
{
    let kids = boxes(d, s, e);
    let ghost ks = boxes_in(d@, s as int, e as int);
    proof { lemma_boxes_view(d@, s as int, e as int, kids@); }
    let mut c = ipco;
    let mut m = ipma;
    let mut i: usize = 0;
    while i < kids.len()
        invariant
            ks == boxes_view(kids@),
            i <= kids@.len(),
            (range_view(c), range_view(m)) == scan_iprp(ks.subrange(0, i as int), range_view(ipco), range_view(ipma)),
        decreases kids@.len() - i,
    {
        let (k, bs, be) = kids[i];
        if k == IPCO {
            c = Some((bs, be));
        } else if k == IPMA {
            m = Some((bs, be));
        }
        proof {
            assert(ks.subrange(0, i + 1).drop_last() =~= ks.subrange(0, i as int));
        }
        i = i + 1;
    }
    assert(ks.subrange(0, kids@.len() as int) =~= ks);
    (c, m)
}

/// The index of a property, with the essential flag dropped.
fn read_index(d: &[u8], at: usize, wide: bool) -> (r: u16)
    requires
        at + (if wide { 2int } else { 1int }) <= d@.len(),
    ensures
        r == property_index(d@, at as int, wide),
{
    if wide {
        (((d[at] as u32) * 256 + (d[at + 1] as u32)) % 0x8000) as u16
    } else {
        (d[at] % 0x80) as u16
    }
}

/// `ipma`: the property indices associated with `item`, in the order the
/// file lists them, which is the order transformative properties apply.
fn associations(d: &[u8], s: usize, e: usize, item: u64) -> (r: Vec<u16>)
    requires
        s <= e <= d@.len(),
    ensures
        r@.len() == spec_associations(d@, s as int, e as int, item as int).len(),
        forall|i: int| 0 <= i < r@.len() ==> r@[i] as int == #[trigger] spec_associations(d@, s as int, e as int, item as int)[i],
{
    if e - s <= 3 {
        return Vec::new();
    }
    let n = match be32(d, s + 4, e) {
        Some(v) => v,
        None => return Vec::new(),
    };
    let version = d[s];
    let wide = d[s + 3] % 2 == 1;
    let ghost target = assoc_walk(d@, e as int, version as int, wide, item as int, n as int, s + 8);
    assert(spec_associations(d@, s as int, e as int, item as int) == match target {
        Some(v) => v,
        None => Seq::<int>::empty(),
    });
    let mut left = n;
    let mut at = s + 8;
    while left > 0
        invariant
            s + 8 <= at,
            s <= e <= d@.len(),
            target == assoc_walk(d@, e as int, version as int, wide, item as int, left as int, at as int),
            spec_associations(d@, s as int, e as int, item as int) == match target {
                Some(v) => v,
                None => Seq::empty(),
            },
        decreases left,
    {
        let id = if version == 0 { be16(d, at, e) } else { be32(d, at, e) };
        let id = match id {
            Some(v) => v,
            None => return Vec::new(),
        };
        let at1 = if version == 0 { at + 2 } else { at + 4 };
        if at1 >= e {
            return Vec::new();
        }
        let count = d[at1] as usize;
        let iw: usize = if wide { 2 } else { 1 };
        let at2 = at1 + 1;
        if count * iw > e - at2 {
            return Vec::new();
        }
        if id == item {
            let mut out: Vec<u16> = Vec::new();
            let mut j: usize = 0;
            while j < count
                invariant
                    at2 + iw * count <= e <= d@.len(),
                    iw == (if wide { 2int } else { 1int }),
                    j <= count,
                    out@.len() == j,
                    forall|q: int| 0 <= q < j ==> out@[q] as int == #[trigger] indices_at(d@, at2 as int, count as int, wide)[q],
                decreases count - j,
            {
                proof {
                    assert(at2 + iw * j + iw <= at2 + iw * count) by (nonlinear_arith)
                        requires j < count, iw >= 1;
                }
                out.push(read_index(d, at2 + iw * j, wide));
                j = j + 1;
            }
            return out;
        }
        at = at2 + iw * count;
        left = left - 1;
    }
    Vec::new()
}

/// `ispe`: the coded width and height.
fn ispe_size(d: &[u8], s: usize, e: usize) -> (r: Option<(u64, u64)>)
    requires
        s <= e <= d@.len(),
    ensures
        match spec_ispe(d@, s as int, e as int) {
            Some((w, h)) => r == Some((w as u64, h as u64)) && w <= u32::MAX && h <= u32::MAX,
            None => r.is_none(),
        },
{
    if s > usize::MAX - 8 {
        return None;
    }
    match (be32(d, s + 4, e), be32(d, s + 8, e)) {
        (Some(w), Some(h)) => if w > 0 && h > 0 { Some((w, h)) } else { None },
        _ => None,
    }
}

/// One clean-aperture fraction, rounded to the nearest integer.
fn fraction(d: &[u8], at: usize, e: usize) -> (r: Option<u64>)
    requires
        at <= e <= d@.len(),
    ensures
        match clap_fraction(d@, at as int, e as int) {
            Some(v) => r == Some(v as u64) && v <= u32::MAX,
            None => r.is_none(),
        },
{
    if at > usize::MAX - 4 {
        return None;
    }
    match (be32(d, at, e), be32(d, at + 4, e)) {
        (Some(n), Some(den)) => if den > 0 && (n + den / 2) / den <= 0xffff_ffff {
            Some((n + den / 2) / den)
        } else {
            None
        },
        _ => None,
    }
}

/// `clap`: the clean aperture as four fractions; only the size matters,
/// rounded to the nearest pixel.
fn clap_size(d: &[u8], s: usize, e: usize) -> (r: Option<(u64, u64)>)
    requires
        s <= e <= d@.len(),
    ensures
        match spec_clap(d@, s as int, e as int) {
            Some((w, h)) => r == Some((w as u64, h as u64)) && w <= u32::MAX && h <= u32::MAX,
            None => r.is_none(),
        },
{
    if e - s < 8 {
        return None;
    }
    match (fraction(d, s, e), fraction(d, s + 8, e)) {
        (Some(w), Some(h)) => if w > 0 && h > 0 { Some((w, h)) } else { None },
        _ => None,
    }
}

fn irot(d: &[u8], s: usize, e: usize) -> (r: Orientation)
    requires
        s <= e <= d@.len(),
    ensures
        r == spec_irot(d@, s as int, e as int),
{
    let a = if s < e { d[s] % 4 } else { 0 };
    if a == 1 {
        Orientation::Rotate270
    } else if a == 2 {
        Orientation::Rotate180
    } else if a == 3 {
        Orientation::Rotate90
    } else {
        Orientation::Normal
    }
}

fn imir(d: &[u8], s: usize, e: usize) -> (r: Orientation)
    requires
        s <= e <= d@.len(),
    ensures
        r == spec_imir(d@, s as int, e as int),
{
    if s < e && d[s] % 2 == 1 {
        Orientation::FlipHorizontal
    } else {
        Orientation::FlipVertical
    }
}

/// What the container says about the primary image, without decoding it.
#[derive(Debug, Clone, PartialEq, Eq)]
pub struct Header {
    /// Displayed width: the clean aperture, with the axes swapped when the
    /// rotation swaps them.
    pub width: u32,
    /// Displayed height.
    pub height: u32,
    /// The transform that brings the decoded, cropped frame upright:
    /// `irot` and `imir` composed in the order the file lists them.
    pub orientation: Orientation,
    /// The ICC profile of a `prof` or `rICC` colour box; an `nclx` box is
    /// ignored.
    pub icc: Option<Vec<u8>>,
}

/// Whether a header is the one the spec describes.
pub open spec fn header_is(r: Option<Header>, v: Option<HeaderView>) -> bool {
    match (r, v) {
        (Some(h), Some(v)) => h.width == v.width && h.height == v.height && h.orientation == v.orientation
            && blob_view(h.icc) == v.icc,
        (None, None) => true,
        _ => false,
    }
}

/// A number read from the file, as the spec reads it.
pub open spec fn num_view(o: Option<u64>) -> Option<int> {
    match o {
        Some(v) => Some(v as int),
        None => None,
    }
}

/// A size read from the file, as the spec reads it.
pub open spec fn size_view(o: Option<(u64, u64)>) -> Option<(int, int)> {
    match o {
        Some((w, h)) => Some((w as int, h as int)),
        None => None,
    }
}

/// The children of `meta`, scanned in order.
fn scan_meta_exec(d: &[u8], s: usize, e: usize) -> (r: (Option<u64>, Option<(usize, usize)>, Option<(usize, usize)>))
    requires
        s <= e <= d@.len(),
    ensures
        scan_meta(d@, boxes_in(d@, s as int, e as int)) == (MetaScan {
            primary: num_view(r.0),
            ipco: range_view(r.1),
            ipma: range_view(r.2),
        }),
        match r.1 { Some((a, b)) => a <= b <= d@.len(), None => true },
        match r.2 { Some((a, b)) => a <= b <= d@.len(), None => true },
{
    let kids = boxes(d, s, e);
    let ghost ks = boxes_in(d@, s as int, e as int);
    proof { lemma_boxes_view(d@, s as int, e as int, kids@); }
    let mut primary: Option<u64> = None;
    let mut ipco: Option<(usize, usize)> = None;
    let mut ipma: Option<(usize, usize)> = None;
    let mut i: usize = 0;
    while i < kids.len()
        invariant
            s <= e <= d@.len(),
            ks == boxes_in(d@, s as int, e as int),
            ks == boxes_view(kids@),
            forall|j: int| 0 <= j < kids@.len() ==> s <= (#[trigger] kids@[j]).1 <= kids@[j].2 <= e,
            i <= kids@.len(),
            scan_meta(d@, ks.subrange(0, i as int)) == (MetaScan {
                primary: num_view(primary),
                ipco: range_view(ipco),
                ipma: range_view(ipma),
            }),
            match ipco { Some((a, b)) => a <= b <= d@.len(), None => true },
            match ipma { Some((a, b)) => a <= b <= d@.len(), None => true },
        decreases kids@.len() - i,
    {
        let (k, bs, be) = kids[i];
        assert(ks[i as int] == (k as int, bs as int, be as int));
        if k == PITM {
            primary = primary_item(d, bs, be);
        } else if k == IPRP {
            let (c, m) = scan_iprp_exec(d, bs, be, ipco, ipma);
            proof {
                lemma_scan_iprp_ranges(d@, boxes_in(d@, bs as int, be as int), range_view(ipco), range_view(ipma), bs as int, be as int);
                lemma_range_view_bounds(c, m, d@.len() as int, bs as int, be as int, ipco, ipma);
            }
            ipco = c;
            ipma = m;
        }
        proof {
            assert(ks.subrange(0, i + 1).drop_last() =~= ks.subrange(0, i as int));
        }
        i = i + 1;
    }
    assert(ks.subrange(0, kids@.len() as int) =~= ks);
    (primary, ipco, ipma)
}

/// The ranges an `iprp` scan yields lie inside the box or were there
/// before.
proof fn lemma_scan_iprp_ranges(d: Seq<u8>, kids: Seq<(int, int, int)>, c0: Option<(int, int)>, m0: Option<(int, int)>, lo: int, hi: int)
    requires
        kids == boxes_in(d, lo, hi),
        0 <= lo <= hi <= d.len(),
    ensures
        ({
            let (c, m) = scan_iprp(kids, c0, m0);
            &&& (c == c0 || exists|a: int, b: int| c == Some((a, b)) && lo <= a <= b <= hi)
            &&& (m == m0 || exists|a: int, b: int| m == Some((a, b)) && lo <= a <= b <= hi)
        }),
{
    lemma_scan_iprp_prefix(d, kids, c0, m0, lo, hi, kids.len() as int);
    assert(kids.subrange(0, kids.len() as int) =~= kids);
}

proof fn lemma_boxes_in_bounds(d: Seq<u8>, lo: int, hi: int, i: int)
    requires
        0 <= i < boxes_in(d, lo, hi).len(),
    ensures
        lo <= boxes_in(d, lo, hi)[i].1 <= boxes_in(d, lo, hi)[i].2 <= hi,
    decreases hi - lo,
{
    match split_box_at(d, lo, hi) {
        Some((k, s, e)) => {
            if e > lo && i > 0 {
                lemma_boxes_in_bounds(d, e, hi, i - 1);
                assert(boxes_in(d, lo, hi)[i] == boxes_in(d, e, hi)[i - 1]);
            }
        },
        None => {},
    }
}

proof fn lemma_scan_iprp_prefix(d: Seq<u8>, kids: Seq<(int, int, int)>, c0: Option<(int, int)>, m0: Option<(int, int)>, lo: int, hi: int, n: int)
    requires
        kids == boxes_in(d, lo, hi),
        0 <= n <= kids.len(),
    ensures
        ({
            let (c, m) = scan_iprp(kids.subrange(0, n), c0, m0);
            &&& (c == c0 || exists|a: int, b: int| c == Some((a, b)) && lo <= a <= b <= hi)
            &&& (m == m0 || exists|a: int, b: int| m == Some((a, b)) && lo <= a <= b <= hi)
        }),
    decreases n,
{
    if n > 0 {
        lemma_scan_iprp_prefix(d, kids, c0, m0, lo, hi, n - 1);
        assert(kids.subrange(0, n).drop_last() =~= kids.subrange(0, n - 1));
        lemma_boxes_in_bounds(d, lo, hi, n - 1);
        let (k, s, e) = kids[n - 1];
        assert(kids.subrange(0, n).last() == kids[n - 1]);
    }
}

proof fn lemma_range_view_bounds(c: Option<(usize, usize)>, m: Option<(usize, usize)>, len: int, lo: int, hi: int, c0: Option<(usize, usize)>, m0: Option<(usize, usize)>)
    requires
        hi <= len,
        (range_view(c) == range_view(c0) || exists|a: int, b: int| range_view(c) == Some((a, b)) && lo <= a <= b <= hi),
        (range_view(m) == range_view(m0) || exists|a: int, b: int| range_view(m) == Some((a, b)) && lo <= a <= b <= hi),
        match c0 { Some((a, b)) => a <= b <= len, None => true },
        match m0 { Some((a, b)) => a <= b <= len, None => true },
    ensures
        match c { Some((a, b)) => a <= b <= len, None => true },
        match m { Some((a, b)) => a <= b <= len, None => true },
{
}

/// The property scan as the spec reads it.
pub open spec fn prop_view(ispe: Option<(u64, u64)>, aperture: Option<(u64, u64)>, o: Orientation, icc: Option<(usize, usize)>) -> PropScan {
    PropScan { ispe: size_view(ispe), aperture: size_view(aperture), orientation: o, icc: range_view(icc) }
}

/// Reads the [`Header`] of a HEIC: `None` when the bytes are not a HEIC
/// or the `meta` box does not describe a primary item with a size.
pub fn header(bytes: &[u8]) -> (r: Option<Header>)
    ensures
        header_is(r, spec_header(bytes@)),
{
    if probe(bytes).is_none() {
        return None;
    }
    let d = bytes;
    let n = d.len();
    let top = boxes(d, 0, n);
    let ghost tops = boxes_in(d@, 0, n as int);
    proof { lemma_boxes_view(d@, 0, n as int, top@); }
    let mut mi: usize = 0;
    while mi < top.len() && top[mi].0 != META
        invariant
            tops == boxes_view(top@),
            mi <= top@.len(),
            first_of_kind(tops, META as int, 0) == first_of_kind(tops, META as int, mi as int),
        decreases top@.len() - mi,
    {
        mi = mi + 1;
    }
    if mi == top.len() {
        return None;
    }
    let (_, ms, me) = top[mi];
    if me - ms < 4 {
        return None;
    }
    let (primary, ipco, ipma) = scan_meta_exec(d, ms + 4, me);
    let ((cs, ce), (as_, ae), item) = match (ipco, ipma, primary) {
        (Some(c), Some(m), Some(p)) => (c, m, p),
        _ => return None,
    };
    let props = boxes(d, cs, ce);
    let ghost ps = boxes_in(d@, cs as int, ce as int);
    proof { lemma_boxes_view(d@, cs as int, ce as int, props@); }
    let assoc = associations(d, as_, ae, item);
    let ghost asg = spec_associations(d@, as_ as int, ae as int, item as int);
    let mut ispe: Option<(u64, u64)> = None;
    let mut aperture: Option<(u64, u64)> = None;
    let mut orientation = Orientation::Normal;
    let mut icc: Option<(usize, usize)> = None;
    let mut i: usize = 0;
    while i < assoc.len()
        invariant
            n == d@.len(),
            ps == boxes_view(props@),
            forall|j: int| 0 <= j < props@.len() ==> cs <= (#[trigger] props@[j]).1 <= props@[j].2 <= ce,
            ce <= n,
            asg.len() == assoc@.len(),
            forall|j: int| 0 <= j < assoc@.len() ==> assoc@[j] as int == #[trigger] asg[j],
            i <= assoc@.len(),
            scan_props(d@, ps, asg.subrange(0, i as int)) == prop_view(ispe, aperture, orientation, icc),
            match ispe { Some((w, h)) => w <= u32::MAX && h <= u32::MAX, None => true },
            match aperture { Some((w, h)) => w <= u32::MAX && h <= u32::MAX, None => true },
            match icc { Some((a, b)) => a <= b <= n, None => true },
        decreases assoc@.len() - i,
    {
        let index = assoc[i];
        if index >= 1 && ((index - 1) as usize) < props.len() {
            let (k, s, e) = props[(index - 1) as usize];
            assert(ps[index - 1] == (k as int, s as int, e as int));
            if k == ISPE {
                ispe = ispe_size(d, s, e);
            } else if k == CLAP {
                aperture = clap_size(d, s, e);
            } else if k == IROT {
                orientation = Orientation::followed_by(orientation, irot(d, s, e));
            } else if k == IMIR {
                orientation = Orientation::followed_by(orientation, imir(d, s, e));
            } else if k == COLR && e - s >= 4 {
                let tag = be32(d, s, e);
                if tag == Some(PROF as u64) || tag == Some(RICC as u64) {
                    icc = Some((s + 4, e));
                }
            }
        }
        proof {
            assert(asg.subrange(0, i + 1).drop_last() =~= asg.subrange(0, i as int));
        }
        i = i + 1;
    }
    assert(asg.subrange(0, assoc@.len() as int) =~= asg);
    let (w0, h0) = match ispe {
        Some(v) => v,
        None => return None,
    };
    let (w1, h1) = match aperture {
        Some((aw, ah)) => (if aw < w0 { aw } else { w0 }, if ah < h0 { ah } else { h0 }),
        None => (w0, h0),
    };
    let (w, h) = if orientation.swaps_axes() { (h1, w1) } else { (w1, h1) };
    let profile = match icc {
        Some((a, b)) => Some(vstd::slice::slice_to_vec(vstd::slice::slice_subrange(d, a, b))),
        None => None,
    };
    Some(Header { width: w as u32, height: h as u32, orientation, icc: profile })
}

} // verus!
