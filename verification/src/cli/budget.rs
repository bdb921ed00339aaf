//! The decoded-pixel budget that bounds how many files are in flight.
//!
//! A file count alone does not bound memory: a few very large inputs in
//! flight hold gigabytes of samples before any encoder runs. Before a
//! worker decodes, it reserves the file's header pixel count here and
//! waits while the reservation would push the running total over the
//! budget. This is the bookkeeping: whether a reservation may go ahead
//! now, and what the total becomes. Waiting for one is the caller's.

use vstd::prelude::*;

verus! {

/// `a + b`, at most `u64::MAX`.
pub open spec fn sat_add(a: u64, b: u64) -> u64 {
    if a + b > u64::MAX { u64::MAX } else { (a + b) as u64 }
}

/// `a - b`, at least zero.
pub open spec fn sat_sub(a: u64, b: u64) -> u64 {
    if a < b { 0 } else { (a - b) as u64 }
}

/// The budget of a run: `max_pixels * jobs / 4` (saturating), and never
/// less than one image at the limit, so a single input always fits.
pub open spec fn spec_run_limit(max_pixels: u64, jobs: usize) -> u64 {
    let j: int = jobs as int;
    let product: int = if max_pixels * j > u64::MAX { u64::MAX as int } else { max_pixels * j };
    let quarter: int = product / 4;
    if quarter < max_pixels { max_pixels as u64 } else { quarter as u64 }
}

/// Whether a reservation of `pixels` may go ahead with `used` reserved
/// out of `limit`: when it fits, or when nothing else is reserved, so a
/// single oversized input still proceeds.
pub open spec fn spec_admits(limit: u64, used: u64, pixels: u64) -> bool {
    used == 0 || sat_add(used, pixels) <= limit
}

/// The shared budget of one run.
#[derive(Debug)]
pub struct PixelBudget {
    limit: u64,
    used: u64,
}

/// Pixels held for one file until it is released.
#[derive(Debug)]
pub struct Reservation {
    pixels: u64,
}

impl Reservation {
    /// Pixels this reservation holds.
    pub fn pixels(&self) -> (r: u64)
        ensures
            r == self.spec_pixels(),
    {
        self.pixels
    }

    /// Pixels this reservation holds.
    pub closed spec fn spec_pixels(&self) -> u64 {
        self.pixels
    }
}

impl PixelBudget {
    /// The budget's limit.
    pub closed spec fn spec_limit(&self) -> u64 {
        self.limit
    }

    /// Pixels reserved right now.
    pub closed spec fn spec_used(&self) -> u64 {
        self.used
    }

    /// The budget for a run: `max_pixels * jobs / 4`, never less than
    /// `max_pixels`.
    pub fn for_run(max_pixels: u64, jobs: usize) -> (r: PixelBudget)
        ensures
            r.spec_limit() == spec_run_limit(max_pixels, jobs),
            r.spec_used() == 0,
    {
        let j: u64 = jobs as u64;
        let product: u64 = match max_pixels.checked_mul(j) {
            Some(p) => p,
            None => u64::MAX,
        };
        let quarter = product / 4;
        let limit = if quarter < max_pixels { max_pixels } else { quarter };
        PixelBudget::new(limit)
    }

    /// A budget of exactly `limit` pixels, none reserved.
    pub fn new(limit: u64) -> (r: PixelBudget)
        ensures
            r.spec_limit() == limit,
            r.spec_used() == 0,
    {
        PixelBudget { limit, used: 0 }
    }

    /// Pixels the budget holds.
    pub fn limit(&self) -> (r: u64)
        ensures
            r == self.spec_limit(),
    {
        self.limit
    }

    /// Pixels reserved right now.
    pub fn used(&self) -> (r: u64)
        ensures
            r == self.spec_used(),
    {
        self.used
    }

    /// Whether a reservation of `pixels` may go ahead now.
    pub fn admits(&self, pixels: u64) -> (r: bool)
        ensures
            r == spec_admits(self.spec_limit(), self.spec_used(), pixels),
    {
        self.used == 0 || self.used.saturating_add(pixels) <= self.limit
    }

    /// Reserves `pixels` if they may go ahead now; `None` means wait for a
    /// release and ask again.
    pub fn reserve(&mut self, pixels: u64) -> (r: Option<Reservation>)
        ensures
            final(self).spec_limit() == old(self).spec_limit(),
            spec_admits(old(self).spec_limit(), old(self).spec_used(), pixels) ==> (r matches Some(res)
                && res.spec_pixels() == pixels && final(self).spec_used() == sat_add(old(self).spec_used(), pixels)),
            !spec_admits(old(self).spec_limit(), old(self).spec_used(), pixels) ==> (r is None
                && final(self).spec_used() == old(self).spec_used()),
    {
        if self.admits(pixels) {
            self.used = self.used.saturating_add(pixels);
            Some(Reservation { pixels })
        } else {
            None
        }
    }

    /// Returns a reservation's pixels to the budget.
    pub fn release(&mut self, r: Reservation)
        ensures
            final(self).spec_limit() == old(self).spec_limit(),
            final(self).spec_used() == sat_sub(old(self).spec_used(), r.spec_pixels()),
    {
        self.used = self.used.saturating_sub(r.pixels);
    }
}

/// A granted reservation keeps the total within the budget, unless it was
/// the only one: the one case where the total may go over.
pub proof fn lemma_reserve_stays_within(limit: u64, used: u64, pixels: u64)
    requires
        spec_admits(limit, used, pixels),
    ensures
        sat_add(used, pixels) <= limit || used == 0,
{
}

/// Releasing what was just reserved gives the total back, when the sum
/// did not saturate.
pub proof fn lemma_release_undoes_reserve(used: u64, pixels: u64)
    requires
        used + pixels <= u64::MAX,
    ensures
        sat_sub(sat_add(used, pixels), pixels) == used,
{
}

/// The budget is never below `max_pixels`, so one image at the limit
/// always fits on its own.
pub proof fn lemma_run_limit_floor(max_pixels: u64, jobs: usize)
    ensures
        spec_run_limit(max_pixels, jobs) >= max_pixels,
{
}

} // verus!
