//! Progress reporting for a detection run.
//!
//! A run emits exactly one start event, any number of progress events and
//! exactly one finish event. Percentages are integers in `0..=100`; the
//! fingerprinting phase occupies the range up to 40 and the comparison phase
//! the range from 40 up to 99, so that only the final event reaches 100.

use vstd::prelude::*;
use vstd::arithmetic::div_mod::{lemma_div_is_ordered, lemma_div_by_multiple};

verus! {

/// The phase a detection run is in, as shown to the user.
#[derive(Clone, Copy, PartialEq, Eq, Structural, Debug)]
pub enum ScanPhase {
    Initializing,
    ComputingHashes,
    ComparingImages,
    Complete,
}

/// The user-visible label of a phase.
pub open spec fn phase_label(p: ScanPhase) -> Seq<char> {
    match p {
        ScanPhase::Initializing => "Initializing"@,
        ScanPhase::ComputingHashes => "Computing Hashes"@,
        ScanPhase::ComparingImages => "Comparing Images"@,
        ScanPhase::Complete => "Complete"@,
    }
}

/// The lifecycle state of a detection run, as shown to the user.
#[derive(Clone, Copy, PartialEq, Eq, Structural, Debug)]
pub enum RunStatus {
    Starting,
    Processing,
    Complete,
}

/// The user-visible label of a run status.
pub open spec fn status_label(s: RunStatus) -> Seq<char> {
    match s {
        RunStatus::Starting => "starting"@,
        RunStatus::Processing => "processing"@,
        RunStatus::Complete => "complete"@,
    }
}

impl ScanPhase {
    /// The label of this phase.
    pub fn label(&self) -> (r: &'static str)
        ensures
            r@ == phase_label(*self),
    {
        match self {
            ScanPhase::Initializing => "Initializing",
            ScanPhase::ComputingHashes => "Computing Hashes",
            ScanPhase::ComparingImages => "Comparing Images",
            ScanPhase::Complete => "Complete",
        }
    }
}

impl RunStatus {
    /// The label of this status.
    pub fn label(&self) -> (r: &'static str)
        ensures
            r@ == status_label(*self),
    {
        match self {
            RunStatus::Starting => "starting",
            RunStatus::Processing => "processing",
            RunStatus::Complete => "complete",
        }
    }
}

/// One progress notification: the completion percentage, the phase, and
/// best-effort hints naming the files being worked on.
pub struct ProgressInfo {
    pub filename: String,
    pub progress: u32,
    pub status: RunStatus,
    pub phase: ScanPhase,
    pub current_file: Option<String>,
    pub target_file: Option<String>,
}

/// A lifecycle notification of a detection run: started once, progress any
/// number of times, finished once.
pub enum DupeEvent {
    Started(ProgressInfo),
    Progress(ProgressInfo),
    Finished(ProgressInfo),
}

/// The payload carried by an event.
pub open spec fn event_info(e: DupeEvent) -> ProgressInfo {
    match e {
        DupeEvent::Started(p) => p,
        DupeEvent::Progress(p) => p,
        DupeEvent::Finished(p) => p,
    }
}

/// The percentage carried by an event.
pub open spec fn event_percent(e: DupeEvent) -> int {
    event_info(e).progress as int
}

/// The percentages of an event sequence never decrease.
pub open spec fn percents_nondecreasing(s: Seq<DupeEvent>) -> bool {
    forall|a: int, b: int|
        0 <= a <= b < s.len() ==> #[trigger] event_percent(s[a]) <= #[trigger] event_percent(s[b])
}

/// A well-formed event trace of one run: it opens with the start event at 0,
/// closes with the finish event at exactly 100, reports only progress in
/// between, and its percentages never decrease or exceed 100.
pub open spec fn events_wellformed(s: Seq<DupeEvent>) -> bool {
    &&& s.len() >= 2
    &&& s[0] matches DupeEvent::Started(p) && p.progress == 0
    &&& s[s.len() - 1] matches DupeEvent::Finished(p) && p.progress == 100
    &&& forall|k: int| 0 < k < s.len() - 1 ==> #[trigger] s[k] is Progress
    &&& percents_nondecreasing(s)
    &&& forall|k: int| 0 <= k < s.len() ==> #[trigger] event_percent(s[k]) <= 100
}

/// Percentage reported while fingerprinting: `done` of `total` images scaled
/// into the first 40 points.
pub open spec fn spec_hash_percent(done: int, total: int) -> int {
    done * 40 / total
}

/// Percentage reported while comparing: `comp` comparisons scaled by `total`
/// into the 60 points above 40, capped at 99 so only the finish event says
/// 100.
pub open spec fn spec_compare_percent(comp: int, total: int) -> int {
    if 40 + comp * 60 / total >= 99 {
        99
    } else {
        40 + comp * 60 / total
    }
}

/// Fingerprinting-phase percentages never decrease as work completes.
pub proof fn lemma_hash_percent_mono(d1: int, d2: int, total: int)
    requires
        0 < total,
        0 <= d1 <= d2,
    ensures
        spec_hash_percent(d1, total) <= spec_hash_percent(d2, total),
{
    lemma_div_is_ordered(d1 * 40, d2 * 40, total);
}

/// Fingerprinting-phase percentages stay in the first 40 points.
pub proof fn lemma_hash_percent_bounds(done: int, total: int)
    requires
        0 < total,
        0 <= done <= total,
    ensures
        0 <= spec_hash_percent(done, total) <= 40,
{
    lemma_div_is_ordered(0, done * 40, total);
    lemma_div_is_ordered(done * 40, total * 40, total);
    lemma_div_by_multiple(40, total);
    assert(total * 40 == 40 * total);
    assert((0int) / total == 0) by {
        lemma_div_by_multiple(0, total);
    }
}

/// Comparison-phase percentages never decrease as comparisons complete.
pub proof fn lemma_compare_percent_mono(c1: int, c2: int, total: int)
    requires
        0 < total,
        0 <= c1 <= c2,
    ensures
        spec_compare_percent(c1, total) <= spec_compare_percent(c2, total),
{
    lemma_div_is_ordered(c1 * 60, c2 * 60, total);
}

/// Comparison-phase percentages stay between 40 and 99.
pub proof fn lemma_compare_percent_bounds(comp: int, total: int)
    requires
        0 < total,
        0 <= comp,
    ensures
        40 <= spec_compare_percent(comp, total) <= 99,
{
    lemma_div_is_ordered(0, comp * 60, total);
    assert((0int) / total == 0) by {
        lemma_div_by_multiple(0, total);
    }
}

/// Fingerprinting-phase percentage of `done` completed images out of `total`.
pub fn hash_percent(done: usize, total: usize) -> (r: u32)
    requires
        0 < total,
        done <= total,
    ensures
        r == spec_hash_percent(done as int, total as int),
        r <= 40,
{
    proof {
        lemma_hash_percent_bounds(done as int, total as int);
    }
    let p: u128 = (done as u128) * 40 / (total as u128);
    p as u32
}

/// Comparison-phase percentage after `comp` comparisons over a corpus of
/// `total` images.
pub fn compare_percent(comp: u64, total: usize) -> (r: u32)
    requires
        0 < total,
    ensures
        r == spec_compare_percent(comp as int, total as int),
        40 <= r <= 99,
{
    proof {
        lemma_compare_percent_bounds(comp as int, total as int);
    }
    let x: u128 = (comp as u128) * 60 / (total as u128);
    if x >= 59 {
        99
    } else {
        (40 + x) as u32
    }
}

} // verus!
