//! The cancellable batch job: walk the candidate list once, generate
//! what the cache lacks, emit progress at every step, and stop at the
//! next item boundary once cancellation is observed.
//!
//! The host owns the shared flag (behind whatever atomic it likes),
//! runs the per-item generation, and reports both back; the counting,
//! the progress events and the stopping rule live here, and the
//! run-level laws are proved over the same model the controller
//! maintains.

use crate::stats::has_key;
use crate::stats::lemma_count_missing;
use crate::stats::spec_count_missing;
use crate::text::decimal_string;
use crate::text::spec_decimal;
use vstd::prelude::*;
use vstd::slice::slice_to_vec;

verus! {

/// The shared cancellation flag's state. The host is expected to keep
/// one instance per running job and to access it atomically; a second
/// concurrent job on the same flag is outside the design.
pub struct CacheCancellation {
    /// Whether a cancel command has been observed.
    pub canceled: bool,
}

impl CacheCancellation {
    /// A fresh, uncancelled flag.
    pub fn new() -> (r: CacheCancellation)
        ensures
            !r.canceled,
    {
        CacheCancellation { canceled: false }
    }

    /// The cancel command: fire and forget.
    pub fn cancel(&mut self)
        ensures
            final(self).canceled,
    {
        self.canceled = true;
    }

    /// A job resets the flag when it starts.
    pub fn reset(&mut self)
        ensures
            !final(self).canceled,
    {
        self.canceled = false;
    }

    /// What a job polls at each item boundary.
    pub fn is_canceled(&self) -> (r: bool)
        ensures
            r == self.canceled,
    {
        self.canceled
    }
}

/// The status a progress event carries.
#[derive(Clone, Copy, Debug, PartialEq, Eq, Structural)]
pub enum JobStatus {
    /// The candidate scan is under way.
    Scanning,
    /// Items are being worked through.
    Generating,
    /// The run stopped at an item boundary on a cancel command.
    Cancelled,
    /// The run worked through every item.
    Finished,
}

/// The label a status is shown under.
pub open spec fn spec_status_label(s: JobStatus) -> Seq<char> {
    match s {
        JobStatus::Scanning => ("Scanning...")@,
        JobStatus::Generating => ("Generating cache...")@,
        JobStatus::Cancelled => ("Cancelled")@,
        JobStatus::Finished => ("Finished")@,
    }
}

impl JobStatus {
    /// Render the status label.
    pub fn label(&self) -> (r: String)
        ensures
            r@ == spec_status_label(*self),
    {
        match self {
            JobStatus::Scanning => String::from_str("Scanning..."),
            JobStatus::Generating => String::from_str("Generating cache..."),
            JobStatus::Cancelled => String::from_str("Cancelled"),
            JobStatus::Finished => String::from_str("Finished"),
        }
    }
}

/// One progress snapshot, streamed to the caller and never stored.
#[derive(Clone, Copy, Debug, PartialEq, Eq, Structural)]
pub struct ProgressEvent {
    /// Items passed so far, the current one included.
    pub current: usize,
    /// The item count fixed when the run started.
    pub total: usize,
    /// What the run is doing.
    pub status: JobStatus,
}

/// Where a batch run stands.
#[derive(Clone, Copy, Debug, PartialEq, Eq, Structural)]
pub enum BatchPhase {
    /// Items are being worked through.
    Running,
    /// A cancel command stopped the run early.
    Cancelled,
    /// Every item was worked through.
    Completed,
}

/// The run summary, as the caller receives it.
pub open spec fn spec_summary(generated: int, cancelled: bool) -> Seq<char> {
    if cancelled {
        ("Generation cancelled. Generated ")@ + spec_decimal(generated) + (" thumbnails.")@
    } else {
        ("Generated ")@ + spec_decimal(generated) + (" new thumbnails")@
    }
}

/// One batch run's bookkeeping.
pub struct BatchJob {
    /// The item count fixed at the start.
    pub total: usize,
    /// Items passed so far.
    pub current: usize,
    /// Previews newly generated so far.
    pub generated: usize,
    /// Where the run stands.
    pub phase: BatchPhase,
}

impl BatchJob {
    /// The counters never outrun each other.
    pub open spec fn wf(self) -> bool {
        self.generated <= self.current <= self.total
    }

    /// Open a run over a fixed number of candidates; the first progress
    /// event announces the scan.
    pub fn start(total: usize) -> (r: (BatchJob, ProgressEvent))
        ensures
            r.0.wf(),
            r.0 == (BatchJob {
                total,
                current: 0,
                generated: 0,
                phase: BatchPhase::Running,
            }),
            r.1 == (ProgressEvent { current: 0, total, status: JobStatus::Scanning }),
    {
        (
            BatchJob { total, current: 0, generated: 0, phase: BatchPhase::Running },
            ProgressEvent { current: 0, total, status: JobStatus::Scanning },
        )
    }

    /// Poll the flag at an item boundary. An observed cancel ends the
    /// run at once: the closing event reports how far it came, and
    /// everything generated so far stays counted and stays cached.
    pub fn poll_cancel(&mut self, canceled: bool) -> (r: Option<ProgressEvent>)
        requires
            old(self).wf(),
            old(self).phase is Running,
        ensures
            final(self).wf(),
            final(self).total == old(self).total,
            final(self).current == old(self).current,
            final(self).generated == old(self).generated,
            canceled ==> final(self).phase is Cancelled && r == Some(
                ProgressEvent {
                    current: old(self).current,
                    total: old(self).total,
                    status: JobStatus::Cancelled,
                },
            ),
            !canceled ==> final(self).phase is Running && r is None,
    {
        if canceled {
            self.phase = BatchPhase::Cancelled;
            Some(
                ProgressEvent {
                    current: self.current,
                    total: self.total,
                    status: JobStatus::Cancelled,
                },
            )
        } else {
            None
        }
    }

    /// Step onto the next item; the event announces it as under way.
    pub fn begin_item(&mut self) -> (r: ProgressEvent)
        requires
            old(self).wf(),
            old(self).phase is Running,
            old(self).current < old(self).total,
        ensures
            final(self).wf(),
            final(self).total == old(self).total,
            final(self).current == old(self).current + 1,
            final(self).generated == old(self).generated,
            final(self).phase is Running,
            r == (ProgressEvent {
                current: (old(self).current + 1) as usize,
                total: old(self).total,
                status: JobStatus::Generating,
            }),
    {
        self.current = self.current + 1;
        ProgressEvent { current: self.current, total: self.total, status: JobStatus::Generating }
    }

    /// Count one newly generated preview for the item under way. An
    /// item already cached or failed is simply not counted.
    pub fn record_generated(&mut self)
        requires
            old(self).wf(),
            old(self).phase is Running,
            old(self).generated < old(self).current,
        ensures
            final(self).wf(),
            final(self).total == old(self).total,
            final(self).current == old(self).current,
            final(self).generated == old(self).generated + 1,
            final(self).phase is Running,
    {
        self.generated = self.generated + 1;
    }

    /// Close a run that worked through every item.
    pub fn finish(&mut self) -> (r: ProgressEvent)
        requires
            old(self).wf(),
            old(self).phase is Running,
            old(self).current == old(self).total,
        ensures
            final(self).wf(),
            final(self).total == old(self).total,
            final(self).current == old(self).current,
            final(self).generated == old(self).generated,
            final(self).phase is Completed,
            r == (ProgressEvent {
                current: old(self).total,
                total: old(self).total,
                status: JobStatus::Finished,
            }),
    {
        self.phase = BatchPhase::Completed;
        ProgressEvent { current: self.total, total: self.total, status: JobStatus::Finished }
    }

    /// The summary the caller receives when the run is over.
    pub fn summary(&self) -> (r: String)
        ensures
            r@ == spec_summary(self.generated as int, self.phase is Cancelled),
    {
        let dec = decimal_string(self.generated as u64);
        if matches!(self.phase, BatchPhase::Cancelled) {
            let mut s = String::from_str("Generation cancelled. Generated ");
            s.append(dec.as_str());
            s.append(" thumbnails.");
            proof {
                assert(("Generation cancelled. Generated ")@ + dec@ + (" thumbnails.")@
                    =~= s@);
            }
            s
        } else {
            let mut s = String::from_str("Generated ");
            s.append(dec.as_str());
            s.append(" new thumbnails");
            proof {
                assert(("Generated ")@ + dec@ + (" new thumbnails")@ =~= s@);
            }
            s
        }
    }
}

/// One candidate, as the scripted run sees it: its fingerprint, and
/// whether generating it would succeed.
pub struct BatchItem {
    /// The candidate's cache key.
    pub fingerprint: Vec<u8>,
    /// Whether the pipeline would produce a preview for it.
    pub gen_ok: bool,
}

impl View for BatchItem {
    type V = (Seq<u8>, bool);

    open spec fn view(&self) -> (Seq<u8>, bool) {
        (self.fingerprint@, self.gen_ok)
    }
}

impl DeepView for BatchItem {
    type V = (Seq<u8>, bool);

    open spec fn deep_view(&self) -> (Seq<u8>, bool) {
        self@
    }
}

/// The boundary at which the run stops: the index of the first observed
/// cancel, or the item count when none is observed.
pub open spec fn spec_stop(cancels: Seq<bool>) -> int
    decreases cancels.len(),
{
    if cancels.len() == 0 {
        0
    } else if cancels.first() {
        0
    } else {
        1 + spec_stop(cancels.drop_first())
    }
}

/// The stopping point is the first observed cancel.
pub proof fn lemma_stop(cancels: Seq<bool>)
    ensures
        0 <= spec_stop(cancels) <= cancels.len(),
        forall|j: int| 0 <= j < spec_stop(cancels) ==> !cancels[j],
        spec_stop(cancels) < cancels.len() ==> cancels[spec_stop(cancels)],
    decreases cancels.len(),
{
    if cancels.len() > 0 && !cancels.first() {
        lemma_stop(cancels.drop_first());
        assert forall|j: int| 1 <= j < cancels.len() implies cancels.drop_first()[j - 1]
            == cancels[j] by {}
    }
}

/// A boundary with no cancel before it and a cancel at it (or the end)
/// is the stopping point.
pub proof fn lemma_stop_is(cancels: Seq<bool>, i: int)
    requires
        0 <= i <= cancels.len(),
        forall|j: int| 0 <= j < i ==> !cancels[j],
        i < cancels.len() ==> cancels[i],
    ensures
        spec_stop(cancels) == i,
{
    lemma_stop(cancels);
    let s = spec_stop(cancels);
    if s < i {
        assert(cancels[s]);
        assert(!cancels[s]);
    }
    if s > i {
        assert(i < cancels.len());
        assert(!cancels[i]);
    }
}

/// The run model over the first `k` items: the cache contents after
/// them, and how many previews were newly generated. An item whose key
/// is already present is skipped; one that generates is appended.
pub open spec fn spec_run(cache: Seq<Seq<u8>>, items: Seq<(Seq<u8>, bool)>, k: int) -> (
    Seq<Seq<u8>>,
    int,
)
    decreases k,
{
    if k <= 0 {
        (cache, 0)
    } else {
        let prev = spec_run(cache, items, k - 1);
        let fp = items[k - 1].0;
        let ok = items[k - 1].1;
        if prev.0.contains(fp) {
            prev
        } else if ok {
            (prev.0.push(fp), prev.1 + 1)
        } else {
            prev
        }
    }
}

/// A run never removes a cache entry: everything present before it, and
/// everything it generates, is still present after any later boundary.
pub proof fn lemma_run_monotone(
    cache: Seq<Seq<u8>>,
    items: Seq<(Seq<u8>, bool)>,
    k1: int,
    k2: int,
    x: Seq<u8>,
)
    requires
        0 <= k1 <= k2,
        spec_run(cache, items, k1).0.contains(x),
    ensures
        spec_run(cache, items, k2).0.contains(x),
    decreases k2 - k1,
{
    if k1 < k2 {
        lemma_run_monotone(cache, items, k1, k2 - 1, x);
        let prev = spec_run(cache, items, k2 - 1);
        if !prev.0.contains(items[k2 - 1].0) && items[k2 - 1].1 {
            assert(prev.0.push(items[k2 - 1].0).contains(x)) by {
                let j = choose|j: int| 0 <= j < prev.0.len() && prev.0[j] == x;
                assert(prev.0.push(items[k2 - 1].0)[j] == x);
            }
        }
    }
}

/// The generated count never exceeds the number of items passed.
pub proof fn lemma_run_count(cache: Seq<Seq<u8>>, items: Seq<(Seq<u8>, bool)>, k: int)
    ensures
        0 <= spec_run(cache, items, k).1 <= (if k >= 0 {
            k
        } else {
            0
        }),
    decreases k,
{
    if k > 0 {
        lemma_run_count(cache, items, k - 1);
    }
}

/// Coverage: a run over every item, with no cancellation and no item
/// failing, leaves every candidate's fingerprint in the cache, so the
/// missing count over those candidates is zero.
pub proof fn lemma_batch_coverage(cache: Seq<Seq<u8>>, items: Seq<(Seq<u8>, bool)>)
    requires
        forall|j: int| 0 <= j < items.len() ==> (#[trigger] items[j]).1,
    ensures
        forall|j: int|
            0 <= j < items.len() ==> spec_run(cache, items, items.len() as int).0.contains(
                (#[trigger] items[j]).0,
            ),
        spec_count_missing(
            items.map_values(|p: (Seq<u8>, bool)| p.0),
            spec_run(cache, items, items.len() as int).0,
        ) == 0,
{
    let after = spec_run(cache, items, items.len() as int).0;
    assert forall|j: int| 0 <= j < items.len() implies after.contains(
        (#[trigger] items[j]).0,
    ) by {
        let prev = spec_run(cache, items, j);
        let step = spec_run(cache, items, j + 1);
        if prev.0.contains(items[j].0) {
            lemma_run_monotone(cache, items, j, items.len() as int, items[j].0);
        } else {
            assert(items[j].1);
            assert(step.0 == prev.0.push(items[j].0));
            assert(step.0[prev.0.len() as int] == items[j].0);
            assert(step.0.contains(items[j].0));
            lemma_run_monotone(cache, items, j + 1, items.len() as int, items[j].0);
        }
    }
    let fps = items.map_values(|p: (Seq<u8>, bool)| p.0);
    lemma_count_missing(fps, after);
    assert forall|j: int| 0 <= j < fps.len() implies after.contains(#[trigger] fps[j]) by {
        assert(fps[j] == items[j].0);
    }
}

/// Everything one batch run reports back.
pub struct BatchReport {
    /// The progress events, in emission order.
    pub events: Vec<ProgressEvent>,
    /// How many previews the run newly generated.
    pub generated: usize,
    /// Whether a cancel command stopped it early.
    pub cancelled: bool,
    /// The closing summary.
    pub summary: String,
}

/// Drive one whole batch run over a scripted candidate list: the flag
/// value observed at each boundary, and whether each item would
/// generate, are given up front. The run stops at the first observed
/// cancel, skips what the cache already holds, appends what it
/// generates, and emits the opening event, one event per item begun,
/// and a closing event.
pub fn run_batch(cache: &mut Vec<Vec<u8>>, items: &Vec<BatchItem>, cancels: &Vec<bool>) -> (r:
    BatchReport)
    requires
        cancels@.len() == items@.len(),
    ensures
        ({
            let idv = items.deep_view();
            let stop = spec_stop(cancels@);
            let total = idv.len() as int;
            let outcome = spec_run(old(cache).deep_view(), idv, stop);
            &&& final(cache).deep_view() == outcome.0
            &&& r.generated == outcome.1
            &&& r.cancelled == (stop < total)
            &&& r.summary@ == spec_summary(outcome.1, stop < total)
            &&& r.events@.len() == stop + 2
            &&& r.events@[0] == (ProgressEvent {
                current: 0,
                total: idv.len() as usize,
                status: JobStatus::Scanning,
            })
            &&& forall|j: int|
                1 <= j <= stop ==> r.events@[j] == (ProgressEvent {
                    current: j as usize,
                    total: idv.len() as usize,
                    status: JobStatus::Generating,
                })
            &&& r.events@[stop + 1] == (ProgressEvent {
                current: if stop < total {
                    stop as usize
                } else {
                    idv.len() as usize
                },
                total: idv.len() as usize,
                status: if stop < total {
                    JobStatus::Cancelled
                } else {
                    JobStatus::Finished
                },
            })
        }),
{
    let ghost cache0 = cache.deep_view();
    let ghost idv = items.deep_view();
    let total = items.len();
    let mut events: Vec<ProgressEvent> = Vec::new();
    let (mut job, ev0) = BatchJob::start(total);
    events.push(ev0);
    let mut i: usize = 0;
    while i < total
        invariant
            total == items@.len() == cancels@.len(),
            i <= total,
            cache0 == old(cache).deep_view(),
            idv == items.deep_view(),
            idv.len() == total,
            cache0.len() <= cache@.len(),
            job.wf(),
            job.phase is Running,
            job.total == total,
            job.current == i,
            job.generated == spec_run(cache0, idv, i as int).1,
            cache.deep_view() == spec_run(cache0, idv, i as int).0,
            forall|j: int| 0 <= j < i ==> !cancels@[j],
            events@.len() == i + 1,
            events@[0] == (ProgressEvent {
                current: 0,
                total: total,
                status: JobStatus::Scanning,
            }),
            forall|j: int|
                1 <= j <= i ==> events@[j] == (ProgressEvent {
                    current: j as usize,
                    total: total,
                    status: JobStatus::Generating,
                }),
        decreases total - i,
    {
        let observed = *vstd::std_specs::vec::vec_index(cancels, i);
        match job.poll_cancel(observed) {
            Some(ev) => {
                proof {
                    lemma_stop_is(cancels@, i as int);
                }
                events.push(ev);
                let summary = job.summary();
                return BatchReport {
                    events,
                    generated: job.generated,
                    cancelled: true,
                    summary,
                };
            }
            None => {}
        }
        let ev = job.begin_item();
        events.push(ev);
        let item = vstd::std_specs::vec::vec_index(items, i);
        let ghost prev = spec_run(cache0, idv, i as int);
        proof {
            assert(idv[i as int] == item@);
            lemma_run_count(cache0, idv, i as int);
        }
        if !has_key(cache, item.fingerprint.as_slice()) {
            if item.gen_ok {
                let ghost before = cache.deep_view();
                cache.push(slice_to_vec(item.fingerprint.as_slice()));
                job.record_generated();
                proof {
                    assert(cache.deep_view() =~~= before.push(item.fingerprint@));
                    assert(cache.deep_view() == spec_run(cache0, idv, i + 1).0);
                }
            }
        }
        proof {
            assert(job.generated == spec_run(cache0, idv, i + 1).1);
            assert(cache.deep_view() == spec_run(cache0, idv, i + 1).0);
        }
        i += 1;
    }
    proof {
        lemma_stop_is(cancels@, total as int);
    }
    let ev = job.finish();
    events.push(ev);
    let summary = job.summary();
    BatchReport { events, generated: job.generated, cancelled: false, summary }
}

/// Cancellation preserves work: whatever the cache held at any earlier
/// boundary — the entries generated before the cancel was observed
/// included — it still holds when the run stops there.
pub proof fn lemma_batch_preserves_cache(
    cache: Seq<Seq<u8>>,
    items: Seq<(Seq<u8>, bool)>,
    k: int,
    x: Seq<u8>,
)
    requires
        0 <= k,
        cache.contains(x),
    ensures
        spec_run(cache, items, k).0.contains(x),
{
    lemma_run_monotone(cache, items, 0, k, x);
}

} // verus!
