//! JPEG XL encoding through `libjxl`: the effort scale as `libjxl`'s
//! effort level.

use vstd::prelude::*;

verus! {

/// JPEG XL encoder over `libjxl`.
#[derive(Debug, Clone, Copy, Default)]
pub struct LibjxlEncoder;

/// Effort `0..=10` to `libjxl` effort level `1..=10`: one more, at most
/// ten. The default effort, 6, lands on `libjxl`'s default, 7.
pub fn map_effort(effort: u8) -> (r: u8)
    ensures
        r == if effort >= 9 { 10 } else { effort + 1 },
        1 <= r <= 10,
{
    if effort >= 9 { 10 } else { effort + 1 }
}

} // verus!
