//! WebP encoding through `libwebp`: the effort scale as `libwebp`'s
//! method.

use vstd::prelude::*;

verus! {

/// WebP encoder over `libwebp`.
#[derive(Debug, Clone, Copy, Default)]
pub struct LibwebpEncoder;

/// Effort `0..=10` to method `0..=6`, rounded to nearest; efforts above
/// ten count as ten.
pub fn map_effort(effort: u8) -> (r: u8)
    ensures
        r == ((if effort < 10 { effort as int } else { 10int }) * 6 + 5) / 10,
        r <= 6,
{
    let e: u16 = if effort < 10 { effort as u16 } else { 10 };
    ((e * 6 + 5) / 10) as u8
}

} // verus!
