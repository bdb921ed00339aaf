//! What a run reports: the status of each output, the feedback flags, the
//! totals behind the closing summary line, and the kind of encoder a
//! request wanted.

use vstd::prelude::*;

verus! {

/// What happened to one output.
#[derive(Debug, Clone, Copy, PartialEq, Eq, Structural)]
pub enum Status {
    /// The file was written.
    Written,
    /// Nothing was written and that is fine: the output would have been
    /// larger than the input.
    Skipped,
    /// A dry run: what would be written.
    Planned,
    /// This output failed. The run's exit code is 1.
    Failed,
}

impl Default for Status {
    /// A record is failed until something says otherwise.
    fn default() -> (r: Self)
        ensures
            r == Status::Failed,
    {
        Status::Failed
    }
}

impl Status {
    /// The name of the status in JSON: lower case.
    pub fn name(self) -> (r: &'static str)
        ensures
            r@ == status_name(self),
    {
        match self {
            Status::Written => "written",
            Status::Skipped => "skipped",
            Status::Planned => "planned",
            Status::Failed => "failed",
        }
    }
}

/// The name of each status in JSON.
pub open spec fn status_name(s: Status) -> Seq<char> {
    match s {
        Status::Written => "written"@,
        Status::Skipped => "skipped"@,
        Status::Planned => "planned"@,
        Status::Failed => "failed"@,
    }
}

/// The feedback flags, resolved.
#[derive(Debug, Clone, Copy, PartialEq, Eq, Structural)]
pub struct Feedback {
    /// Records go to stdout as JSON Lines.
    pub json: bool,
    /// Per-file lines and the summary on stderr.
    pub progress: bool,
    /// No warnings.
    pub quiet: bool,
    /// `-v` count.
    pub verbose: u8,
    /// Width of the longest input path, so the columns line up across
    /// workers that finish in any order.
    pub name_width: usize,
}

impl Default for Feedback {
    /// Everything off.
    fn default() -> (r: Self)
        ensures
            !r.json && !r.progress && !r.quiet && r.verbose == 0 && r.name_width == 0,
    {
        Feedback { json: false, progress: false, quiet: false, verbose: 0, name_width: 0 }
    }
}

/// Running totals over every record of a run, for the summary line.
#[derive(Debug, Clone, Copy, PartialEq, Eq, Structural)]
pub struct Tally {
    /// Outputs written.
    pub written: u32,
    /// Outputs skipped as larger.
    pub skipped: u32,
    /// Outputs planned by a dry run.
    pub planned: u32,
    /// Outputs that failed.
    pub failed: u32,
    /// Input bytes behind the written outputs.
    pub input_bytes: u64,
    /// Bytes written.
    pub output_bytes: u64,
}

impl Default for Tally {
    /// Nothing counted.
    fn default() -> (r: Self)
        ensures
            r == empty_tally(),
    {
        Tally { written: 0, skipped: 0, planned: 0, failed: 0, input_bytes: 0, output_bytes: 0 }
    }
}

/// The tally of no records.
pub open spec fn empty_tally() -> Tally {
    Tally { written: 0, skipped: 0, planned: 0, failed: 0, input_bytes: 0, output_bytes: 0 }
}

/// The records a tally counts.
pub open spec fn count_of(t: Tally) -> int {
    t.written + t.skipped + t.planned + t.failed
}

/// Whether two tallies can be summed without a field overflowing.
pub open spec fn can_merge(a: Tally, b: Tally) -> bool {
    &&& a.written + b.written <= u32::MAX
    &&& a.skipped + b.skipped <= u32::MAX
    &&& a.planned + b.planned <= u32::MAX
    &&& a.failed + b.failed <= u32::MAX
    &&& a.input_bytes + b.input_bytes <= u64::MAX
    &&& a.output_bytes + b.output_bytes <= u64::MAX
}

/// Two tallies summed field by field.
pub open spec fn merged(a: Tally, b: Tally) -> Tally {
    Tally {
        written: (a.written + b.written) as u32,
        skipped: (a.skipped + b.skipped) as u32,
        planned: (a.planned + b.planned) as u32,
        failed: (a.failed + b.failed) as u32,
        input_bytes: (a.input_bytes + b.input_bytes) as u64,
        output_bytes: (a.output_bytes + b.output_bytes) as u64,
    }
}

/// A tally with one more record: its status counted, and for a written
/// output its input and output sizes, a missing size counting as zero.
pub open spec fn counted(t: Tally, status: Status, input_bytes: Option<u64>, output_bytes: Option<u64>) -> Tally {
    match status {
        Status::Written => Tally {
            written: (t.written + 1) as u32,
            input_bytes: (t.input_bytes + input_bytes.unwrap_or(0)) as u64,
            output_bytes: (t.output_bytes + output_bytes.unwrap_or(0)) as u64,
            ..t
        },
        Status::Skipped => Tally { skipped: (t.skipped + 1) as u32, ..t },
        Status::Planned => Tally { planned: (t.planned + 1) as u32, ..t },
        Status::Failed => Tally { failed: (t.failed + 1) as u32, ..t },
    }
}

/// Whether one more record fits in a tally without a field overflowing.
pub open spec fn can_count(t: Tally, status: Status, input_bytes: Option<u64>, output_bytes: Option<u64>) -> bool {
    match status {
        Status::Written => t.written < u32::MAX
            && t.input_bytes + input_bytes.unwrap_or(0) <= u64::MAX
            && t.output_bytes + output_bytes.unwrap_or(0) <= u64::MAX,
        Status::Skipped => t.skipped < u32::MAX,
        Status::Planned => t.planned < u32::MAX,
        Status::Failed => t.failed < u32::MAX,
    }
}

impl Tally {
    /// Counts one record, given by its status and, for a written output,
    /// its input and output sizes.
    pub fn add(&mut self, status: Status, input_bytes: Option<u64>, output_bytes: Option<u64>)
        requires
            can_count(*old(self), status, input_bytes, output_bytes),
        ensures
            *final(self) == counted(*old(self), status, input_bytes, output_bytes),
    {
        match status {
            Status::Written => {
                self.written = self.written + 1;
                let i = match input_bytes {
                    Some(n) => n,
                    None => 0,
                };
                let o = match output_bytes {
                    Some(n) => n,
                    None => 0,
                };
                self.input_bytes = self.input_bytes + i;
                self.output_bytes = self.output_bytes + o;
            },
            Status::Skipped => {
                self.skipped = self.skipped + 1;
            },
            Status::Planned => {
                self.planned = self.planned + 1;
            },
            Status::Failed => {
                self.failed = self.failed + 1;
            },
        }
    }

    /// Two tallies as one.
    pub fn merge(self, o: Self) -> (r: Self)
        requires
            can_merge(self, o),
        ensures
            r == merged(self, o),
    {
        Tally {
            written: self.written + o.written,
            skipped: self.skipped + o.skipped,
            planned: self.planned + o.planned,
            failed: self.failed + o.failed,
            input_bytes: self.input_bytes + o.input_bytes,
            output_bytes: self.output_bytes + o.output_bytes,
        }
    }

    /// Records counted.
    pub fn total(&self) -> (r: u32)
        requires
            count_of(*self) <= u32::MAX,
        ensures
            r == count_of(*self),
    {
        self.written + self.skipped + self.planned + self.failed
    }
}

/// Merging is commutative: the order in which workers' tallies are
/// combined does not change the summary.
pub proof fn lemma_merge_commutes(a: Tally, b: Tally)
    requires
        can_merge(a, b),
    ensures
        can_merge(b, a),
        merged(a, b) == merged(b, a),
{
}

/// Merging is associative.
pub proof fn lemma_merge_associates(a: Tally, b: Tally, c: Tally)
    requires
        can_merge(a, b),
        can_merge(merged(a, b), c),
    ensures
        can_merge(b, c),
        can_merge(a, merged(b, c)),
        merged(merged(a, b), c) == merged(a, merged(b, c)),
{
}

/// The empty tally is the unit of merging.
pub proof fn lemma_merge_empty(a: Tally)
    ensures
        can_merge(a, empty_tally()),
        merged(a, empty_tally()) == a,
{
}

/// The total of a merge is the sum of the totals.
pub proof fn lemma_total_adds(a: Tally, b: Tally)
    requires
        can_merge(a, b),
    ensures
        count_of(merged(a, b)) == count_of(a) + count_of(b),
{
}

/// Counting a record adds one to the total, whatever its status; only a
/// written record moves the byte sums.
pub proof fn lemma_count_adds_one(t: Tally, status: Status, input_bytes: Option<u64>, output_bytes: Option<u64>)
    requires
        can_count(t, status, input_bytes, output_bytes),
    ensures
        count_of(counted(t, status, input_bytes, output_bytes)) == count_of(t) + 1,
        status != Status::Written ==> counted(t, status, input_bytes, output_bytes).input_bytes == t.input_bytes
            && counted(t, status, input_bytes, output_bytes).output_bytes == t.output_bytes,
{
}

/// Which mode an encoder was wanted for.
#[derive(Debug, Clone, Copy, PartialEq, Eq, Structural)]
pub enum Need {
    /// Any encoder.
    Any,
    /// A lossy one.
    Lossy,
    /// A lossless one.
    Lossless,
}

/// The exit code of a run that reached its inputs: 1 when an output
/// failed or an argument matched nothing, else 0. An output skipped as
/// larger than its input is no failure.
pub fn exit_code(t: &Tally, unresolved: usize) -> (r: u8)
    ensures
        r == (if t.failed > 0 || unresolved > 0 { 1u8 } else { 0u8 }),
{
    if t.failed > 0 || unresolved > 0 { 1 } else { 0 }
}

/// Worker threads for a run: the `-j` value, but no more than one per
/// input and never none.
pub fn worker_count(jobs: usize, inputs: usize) -> (r: usize)
    ensures
        r == (if jobs <= inputs { if jobs == 0 { 1 } else { jobs } } else { if inputs == 0 { 1 } else { inputs } }),
        1 <= r,
        inputs > 0 ==> r <= inputs,
{
    let n = if jobs <= inputs { jobs } else { inputs };
    if n == 0 { 1 } else { n }
}

} // verus!
