//! A cheap guess at what kind of picture an image is, for choosing a
//! default output format: photographs go to a lossy codec, graphics with
//! few colours or large flat areas to a lossless one.
//!
//! Two signals, both over a sample of the pixels so the cost is bounded
//! whatever the size: an image that uses at most 256 colours is a
//! graphic, the way an indexed PNG is; so is one where at least half of
//! the horizontally adjacent pixel pairs are identical. Pixels are told
//! apart by an FNV-1a hash of their sample bytes. It errs toward `Photo`.

use vstd::prelude::*;
use vstd::arithmetic::div_mod::{lemma_fundamental_div_mod, lemma_fundamental_div_mod_converse};
use crate::image::{Image, SampleData, data_len, image_wf, spec_channels};
use crate::image::Samples;
use std::collections::HashSet;

verus! {

broadcast use vstd::std_specs::hash::group_hash_axioms;

/// What an image looks like, for the purpose of picking a codec.
#[derive(Debug, Clone, Copy, PartialEq, Eq, Hash, Structural)]
pub enum Content {
    /// Continuous tone: photographs, renders, scans.
    Photo,
    /// Few colours or large flat areas: screenshots, diagrams, logos.
    Graphic,
}

/// An image with at most this many distinct colours is a graphic.
pub const MAX_GRAPHIC_COLORS: usize = 256;
/// Rows sampled; every row is sampled below this height.
pub const SAMPLED_ROWS: u64 = 64;
/// Pixels visited per sampled row; every pixel below this width.
pub const SAMPLED_COLUMNS: u64 = 2048;

/// FNV-1a's offset basis.
pub const FNV_OFFSET: u64 = 0xcbf2_9ce4_8422_2325;
/// FNV-1a's prime.
pub const FNV_PRIME: u64 = 0x0100_0000_01b3;

/// One FNV-1a step: the byte folded in, then the product wrapped.
pub open spec fn fnv_step(h: u64, b: u8) -> u64 {
    vstd::wrapping::u64_specs::wrapping_mul(h ^ (b as u64), FNV_PRIME)
}

/// Sample `i` folded in, as its little-endian bytes.
pub open spec fn mix_sample(h: u64, d: SampleData, i: int) -> u64 {
    match d {
        SampleData::U8(v) => fnv_step(h, v[i]),
        SampleData::U16(v) => fnv_step(fnv_step(h, (v[i] % 256) as u8), (v[i] / 256) as u8),
        SampleData::F32(v) => fnv_step(
            fnv_step(fnv_step(fnv_step(h, (v[i] % 256) as u8), ((v[i] / 256) % 256) as u8), ((v[i] / 65536) % 256) as u8),
            (v[i] / 16777216) as u8,
        ),
    }
}

/// The hash of the `n` samples from `at` on.
pub open spec fn pixel_hash(d: SampleData, at: int, n: int) -> u64
    decreases n,
{
    if n <= 0 { FNV_OFFSET } else { mix_sample(pixel_hash(d, at, n - 1), d, at + n - 1) }
}

/// Rows between sampled rows: the height over 64, rounded up.
pub open spec fn row_step(h: u32) -> int {
    (h + 63) / 64
}

/// Columns between sampled pixels: the width over 2048, rounded up.
pub open spec fn col_step(w: u32) -> int {
    (w + 2047) / 2048
}

/// How many rows are sampled.
pub open spec fn sampled_rows(h: u32) -> int {
    (h + row_step(h) - 1) / row_step(h)
}

/// How many pixels of a row are sampled.
pub open spec fn sampled_cols(w: u32) -> int {
    (w + col_step(w) - 1) / col_step(w)
}

/// The hash of sampled pixel `k`, the sampled pixels taken row by row.
pub open spec fn sample_hash(d: SampleData, w: u32, h: u32, ch: int, k: int) -> u64 {
    let nc = sampled_cols(w);
    let y = (k / nc) * row_step(h);
    let x = (k % nc) * col_step(w);
    pixel_hash(d, (y * w + x) * ch, ch)
}

/// The hashes of the first `n` sampled pixels.
pub open spec fn sample_hashes(d: SampleData, w: u32, h: u32, ch: int, n: int) -> Seq<u64> {
    Seq::new(n as nat, |k: int| sample_hash(d, w, h, ch, k))
}

/// The values a sequence holds.
pub open spec fn set_of(s: Seq<u64>) -> Set<u64>
    decreases s.len(),
{
    if s.len() == 0 { Set::empty() } else { set_of(s.drop_last()).insert(s.last()) }
}

/// Sampled pixels equal to the one before them in the same row, `nc`
/// pixels a row.
pub open spec fn flat_count(s: Seq<u64>, nc: int) -> nat
    decreases s.len(),
{
    if s.len() == 0 {
        0
    } else {
        let n = s.len() - 1;
        flat_count(s.drop_last(), nc) + if n % nc != 0 && s[n] == s[n - 1] { 1nat } else { 0nat }
    }
}

/// The two signals over an image's sample.
#[derive(Debug, Clone, Copy, PartialEq, Eq, Structural)]
pub struct Stats {
    /// Distinct colours seen, saturating at one past the graphic limit.
    pub colors: usize,
    /// Horizontally adjacent pairs compared.
    pub pairs: u64,
    /// Of those, identical.
    pub flat: u64,
}

/// The signals an image gives: its distinct sampled colours (up to 257),
/// the adjacent pairs compared, and how many of them are identical.
pub open spec fn spec_stats(d: SampleData, w: u32, h: u32, ch: int) -> (int, int, int) {
    let all = sample_hashes(d, w, h, ch, sampled_rows(h) * sampled_cols(w));
    let distinct = set_of(all).len();
    (if distinct <= 256 { distinct as int } else { 257 }, sampled_rows(h) * (sampled_cols(w) - 1), flat_count(all, sampled_cols(w)) as int)
}

/// What the signals make of an image: a graphic when it has at most 256
/// colours, or when at least half of its adjacent pairs are identical.
/// (The share is compared as a ratio of whole numbers, which is what the
/// floating-point share gives at these sizes.)
pub open spec fn spec_classify(colors: int, pairs: int, flat: int) -> Content {
    if colors <= 256 || (pairs > 0 && 2 * flat >= pairs) { Content::Graphic } else { Content::Photo }
}

fn mix(h: u64, b: u8) -> (r: u64)
    ensures
        r == fnv_step(h, b),
{
    (h ^ (b as u64)).wrapping_mul(FNV_PRIME)
}

/// The hash of a pixel's samples, as FNV-1a over their little-endian
/// bytes.
fn hash_pixel(samples: &Samples, at: usize, ch: usize) -> (r: u64)
    requires
        at + ch <= data_len(samples@),
    ensures
        r == pixel_hash(samples@, at as int, ch as int),
{
    let n = samples.len();
    let mut h: u64 = FNV_OFFSET;
    let mut k: usize = 0;
    while k < ch
        invariant
            at + ch <= data_len(samples@),
            n == data_len(samples@),
            k <= ch,
            h == pixel_hash(samples@, at as int, k as int),
        decreases ch - k,
    {
        h = match samples {
            Samples::U8(v) => mix(h, v[at + k]),
            Samples::U16(v) => {
                let s = v[at + k];
                mix(mix(h, (s % 256) as u8), (s / 256) as u8)
            },
            Samples::F32(v) => {
                let s = v[at + k];
                mix(mix(mix(mix(h, (s % 256) as u8), ((s / 256) % 256) as u8), ((s / 65536) % 256) as u8), (s / 16777216) as u8)
            },
        };
        k = k + 1;
    }
    h
}

proof fn lemma_sample_in_bounds(i: int, j: int, nr: int, nc: int, rs: int, cs: int, w: int, h: int, ch: int)
    by (nonlinear_arith)
    requires
        w > 0,
        h > 0,
        ch > 0,
        rs >= 1,
        cs >= 1,
        nr == (h + rs - 1) / rs,
        nc == (w + cs - 1) / cs,
        0 <= i < nr,
        0 <= j < nc,
    ensures
        0 <= i * rs < h,
        0 <= j * cs < w,
        ((i * rs) * w + j * cs) * ch + ch <= w * h * ch,
        0 <= ((i * rs) * w + j * cs) * ch,
{
    assert(nr * rs <= h + rs - 1);
    assert(i * rs <= (nr - 1) * rs);
    assert(nc * cs <= w + cs - 1);
    assert(j * cs <= (nc - 1) * cs);
    assert((i * rs) * w + j * cs + 1 <= (i * rs) * w + w);
    assert((i * rs + 1) * w <= h * w);
}

proof fn lemma_sample_counts(w: int, h: int)
    by (nonlinear_arith)
    requires
        w > 0,
        h > 0,
    ensures
        (h + 63) / 64 >= 1,
        (w + 2047) / 2048 >= 1,
        1 <= (h + (h + 63) / 64 - 1) / ((h + 63) / 64) <= 64,
        1 <= (w + (w + 2047) / 2048 - 1) / ((w + 2047) / 2048) <= 2048,
{
}

proof fn lemma_set_of_finite(s: Seq<u64>)
    ensures
        set_of(s).finite(),
        set_of(s).len() <= s.len(),
    decreases s.len(),
{
    if s.len() > 0 {
        lemma_set_of_finite(s.drop_last());
    }
}

/// The two signals over a sample of the image: at most 64 rows and 2048
/// pixels a row, evenly spaced from the first.
pub fn sample_stats(img: &Image) -> (r: Stats)
    ensures
        (r.colors as int, r.pairs as int, r.flat as int) == spec_stats(img@.samples, img@.width, img@.height, spec_channels(img@.color) as int),
{
    let samples = img.samples();
    let (w, h, ch) = (img.width(), img.height(), img.channels());
    let ghost d = samples@;
    let rs: u64 = ((h as u64) + 63) / 64;
    let cs: u64 = ((w as u64) + 2047) / 2048;
    proof { lemma_sample_counts(w as int, h as int); }
    let nr: u64 = ((h as u64) + rs - 1) / rs;
    let nc: u64 = ((w as u64) + cs - 1) / cs;
    proof {
        assert(nr * nc <= 64 * 2048) by (nonlinear_arith) requires 1 <= nr <= 64, 1 <= nc <= 2048;
    }
    let total: u64 = nr * nc;
    let n_samples = samples.len();
    let ghost all = sample_hashes(d, w, h, ch as int, total as int);
    let mut seen: HashSet<u64> = HashSet::new();
    let mut pairs: u64 = 0;
    let mut flat: u64 = 0;
    let mut prev: u64 = 0;
    let mut k: u64 = 0;
    while k < total
        invariant
            d == samples@,
            n_samples == data_len(d),
            image_wf(img@),
            samples@ == img@.samples,
            w == img@.width,
            h == img@.height,
            ch == spec_channels(img@.color),
            w > 0 && h > 0 && ch > 0,
            rs == row_step(h),
            cs == col_step(w),
            nr == sampled_rows(h),
            nc == sampled_cols(w),
            1 <= nr <= 64,
            1 <= nc <= 2048,
            total == nr * nc,
            all == sample_hashes(d, w, h, ch as int, total as int),
            k <= total,
            pairs <= k,
            flat <= k,
            seen@.finite(),
            seen@.subset_of(set_of(all.take(k as int))),
            seen@.len() <= 256 ==> seen@ == set_of(all.take(k as int)),
            seen@.len() <= 257,
            pairs == (k / nc) * (nc - 1) + if k % nc == 0 { 0 } else { k % nc - 1 },
            flat == flat_count(all.take(k as int), nc as int),
            k > 0 ==> prev == all[k - 1],
        decreases total - k,
    {
        let i = k / nc;
        let j = k % nc;
        proof {
            lemma_fundamental_div_mod(k as int, nc as int);
            assert(i < nr) by (nonlinear_arith) requires k < nr * nc, i == k / nc, nc > 0, k >= 0;
            lemma_sample_in_bounds(i as int, j as int, nr as int, nc as int, rs as int, cs as int, w as int, h as int, ch as int);
        }
        let y = (i * rs) as usize;
        let x = (j * cs) as usize;
        proof {
            assert(y * w <= y * w + x);
            assert((y * w + x) * 1 <= (y * w + x) * ch) by (nonlinear_arith) requires ch >= 1, y * w + x >= 0;
        }
        let at: usize = (y * (w as usize) + x) * ch;
        let pixel = hash_pixel(samples, at, ch);
        assert(pixel == all[k as int]);
        let ghost before = seen@;
        if seen.len() <= MAX_GRAPHIC_COLORS {
            seen.insert(pixel);
        }
        proof {
            let t = all.take(k + 1);
            assert(t.drop_last() =~= all.take(k as int));
            assert(t.last() == pixel);
            lemma_set_of_finite(all.take(k as int));
            if before.len() > 256 {
                vstd::set_lib::lemma_len_subset(before, set_of(all.take(k as int)));
            }
        }
        if j > 0 {
            pairs = pairs + 1;
            if prev == pixel {
                flat = flat + 1;
            }
        }
        proof {
            lemma_fundamental_div_mod(k + 1, nc as int);
            if j + 1 < nc {
                lemma_fundamental_div_mod_converse(k + 1, nc as int, i as int, j + 1);
            } else {
                assert(k + 1 == (i + 1) * nc) by (nonlinear_arith)
                    requires k == nc * i + j, j + 1 == nc;
                lemma_fundamental_div_mod_converse(k + 1, nc as int, i + 1, 0);
            }
            assert(pairs == ((k + 1) / (nc as int)) * (nc - 1) + if (k + 1) % (nc as int) == 0 { 0 } else { (k + 1) % (nc as int) - 1 }) by (nonlinear_arith)
                requires
                    j + 1 < nc ==> ((k + 1) / (nc as int) == i && (k + 1) % (nc as int) == j + 1),
                    j + 1 >= nc ==> ((k + 1) / (nc as int) == i + 1 && (k + 1) % (nc as int) == 0),
                    j + 1 <= nc,
                    pairs == i * (nc - 1) + j,
                    nc >= 1;
        }
        prev = pixel;
        k = k + 1;
    }
    proof {
        lemma_fundamental_div_mod_converse(total as int, nc as int, nr as int, 0);
        assert(all.take(total as int) =~= all);
        lemma_set_of_finite(all);
        if seen@.len() > 256 {
            vstd::set_lib::lemma_len_subset(seen@, set_of(all));
        }
    }
    Stats { colors: seen.len(), pairs, flat }
}

/// Classifies an image. See the module docs for what the answer means.
pub fn classify(img: &Image) -> (r: Content)
    ensures
        ({
            let s = spec_stats(img@.samples, img@.width, img@.height, spec_channels(img@.color) as int);
            r == spec_classify(s.0, s.1, s.2)
        }),
{
    let s = sample_stats(img);
    if s.colors <= MAX_GRAPHIC_COLORS || (s.pairs > 0 && 2 * (s.flat as u128) >= s.pairs as u128) {
        Content::Graphic
    } else {
        Content::Photo
    }
}

/// `photo` / `graphic`.
pub fn content_name(c: Content) -> (r: &'static str)
    ensures
        r@ == (match c {
            Content::Photo => "photo"@,
            Content::Graphic => "graphic"@,
        }),
{
    match c {
        Content::Photo => "photo",
        Content::Graphic => "graphic",
    }
}

/// The sample bounds the work: at most 64 rows of at most 2048 pixels
/// are visited, so at most that many adjacent pairs are compared,
/// whatever the image's size; and an image within those bounds is
/// scanned whole, every row and every pixel of it.
pub proof fn lemma_sampling_bounds_the_work(d: SampleData, w: u32, h: u32, ch: int)
    requires
        w > 0,
        h > 0,
    ensures
        1 <= sampled_rows(h) <= 64,
        1 <= sampled_cols(w) <= 2048,
        spec_stats(d, w, h, ch).1 <= 64 * 2048,
        h <= 64 ==> row_step(h) == 1 && sampled_rows(h) == h,
        w <= 2048 ==> col_step(w) == 1 && sampled_cols(w) == w,
{
    lemma_sample_counts(w as int, h as int);
    let nr = sampled_rows(h);
    let nc = sampled_cols(w);
    assert(nr * (nc - 1) <= 64 * 2048) by (nonlinear_arith) requires 1 <= nr <= 64, 1 <= nc <= 2048;
}

} // verus!
