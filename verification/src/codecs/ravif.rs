//! AVIF encoding through `ravif`: how the shared effort scale maps onto
//! `rav1e` speed.

use vstd::prelude::*;

verus! {

/// AVIF encoder over `ravif` (`rav1e`).
#[derive(Debug, Clone, Copy, Default)]
pub struct RavifEncoder;

/// Effort `0..=10` to `rav1e` speed `10..=1`: ten less the effort, at
/// least one. The default effort, 6, lands on speed 4.
pub open spec fn spec_ravif_speed(effort: u8) -> u8 {
    let s = if effort >= 10 { 0u8 } else { (10 - effort) as u8 };
    if s < 1 { 1 } else { s }
}

/// Effort to speed.
pub fn map_effort(effort: u8) -> (r: u8)
    ensures
        r == spec_ravif_speed(effort),
        1 <= r <= 10,
{
    let s: u8 = if effort >= 10 { 0 } else { 10 - effort };
    if s < 1 { 1 } else { s }
}

} // verus!
