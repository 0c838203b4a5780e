//! Per-job terminal outcomes, their reduction to one overall run result,
//! and the shared progress counter.
use crate::CliError;
use vstd::prelude::*;

verus! {

/// The terminal state of a single transcode job.  Exactly one outcome is
/// produced per job.
#[derive(Debug, Clone)]
pub enum JobOutcome {
    /// The output file already existed, so the job was never run.
    Skipped,
    /// The external transcoder reported success.
    Succeeded,
    /// The external transcoder failed; the diagnostic text it printed is
    /// carried verbatim.
    Failed(String),
}

/// The diagnostic text of a failed outcome.
pub open spec fn failed_detail(o: JobOutcome) -> Seq<char> {
    match o {
        JobOutcome::Failed(d) => d@,
        _ => Seq::empty(),
    }
}

/// The fold of all outcomes into one result: success unless some job
/// failed, in which case the first failure's diagnostic text is kept.
pub open spec fn spec_reduce(s: Seq<JobOutcome>) -> Result<(), Seq<char>>
    decreases s.len(),
{
    if s.len() == 0 {
        Ok(())
    } else if s[0] is Failed {
        Err(failed_detail(s[0]))
    } else {
        spec_reduce(s.drop_first())
    }
}

/// The reduction fails exactly when some outcome is a failure; when all
/// outcomes are skips or successes, it is a success.
pub proof fn lemma_reduce_failure(s: Seq<JobOutcome>)
    ensures
        (spec_reduce(s) is Err) <==> (exists|i: int| 0 <= i < s.len() && s[i] is Failed),
    decreases s.len(),
{
    if s.len() == 0 {
    } else if s[0] is Failed {
        assert(0 <= 0 < s.len() && s[0] is Failed);
    } else {
        lemma_reduce_failure(s.drop_first());
        if spec_reduce(s) is Err {
            let i = choose|i: int| 0 <= i < s.drop_first().len() && s.drop_first()[i] is Failed;
            assert(s[i + 1] is Failed);
        }
        if exists|i: int| 0 <= i < s.len() && s[i] is Failed {
            let i = choose|i: int| 0 <= i < s.len() && s[i] is Failed;
            assert(s.drop_first()[i - 1] is Failed);
        }
    }
}

/// Whether the run as a whole succeeded does not depend on the order in
/// which the outcomes were gathered: any reordering of the same outcomes
/// reduces to the same disposition.
pub proof fn lemma_reduce_order_independent(a: Seq<JobOutcome>, b: Seq<JobOutcome>)
    requires
        a.to_multiset() == b.to_multiset(),
    ensures
        (spec_reduce(a) is Ok) <==> (spec_reduce(b) is Ok),
{
    a.to_multiset_ensures();
    b.to_multiset_ensures();
    lemma_reduce_failure(a);
    lemma_reduce_failure(b);
    if spec_reduce(a) is Err {
        let i = choose|i: int| 0 <= i < a.len() && a[i] is Failed;
        assert(a.contains(a[i]));
        assert(b.to_multiset().count(a[i]) > 0);
        assert(b.contains(a[i]));
        let j = choose|j: int| 0 <= j < b.len() && b[j] == a[i];
        assert(b[j] is Failed);
    }
    if spec_reduce(b) is Err {
        let i = choose|i: int| 0 <= i < b.len() && b[i] is Failed;
        assert(b.contains(b[i]));
        assert(a.to_multiset().count(b[i]) > 0);
        assert(a.contains(b[i]));
        let j = choose|j: int| 0 <= j < a.len() && a[j] == b[i];
        assert(a[j] is Failed);
    }
}

/// Reduces all per-job outcomes into the run's overall result: success
/// unless some job failed; the first failure's diagnostic text is wrapped
/// as the run's error.  Individual failures have already been reported
/// while the jobs ran; this fold only fixes the final disposition.
pub fn reduce_outcomes(outcomes: &Vec<JobOutcome>) -> (r: Result<(), CliError>)
    ensures
        (match spec_reduce(outcomes@) {
            Ok(_) => r is Ok,
            Err(d) => r matches Err(e) && e matches CliError::IOError(m) && m@ == d,
        }),
{
    let mut i: usize = 0;
    proof {
        assert(outcomes@.skip(0) =~= outcomes@);
    }
    while i < outcomes.len()
        invariant
            i <= outcomes@.len(),
            spec_reduce(outcomes@) == spec_reduce(outcomes@.skip(i as int)),
        decreases outcomes.len() - i,
    {
        let current = &outcomes[i];
        proof {
            assert(outcomes@.skip(i as int)[0] == outcomes@[i as int]);
        }
        if let JobOutcome::Failed(detail) = current {
            return Err(CliError::IOError(detail.clone()));
        }
        i = i + 1;
        proof {
            assert(outcomes@.skip(i - 1).drop_first() =~= outcomes@.skip(i as int));
        }
    }
    proof {
        assert(outcomes@.skip(i as int) =~= Seq::<JobOutcome>::empty());
    }
    Ok(())
}

/// The deduplication decision: a job runs exactly when no file already
/// exists at its output path.
pub fn should_run(output_exists: bool) -> (b: bool)
    ensures
        b == !output_exists,
{
    !output_exists
}

/// The outcome of a job whose transcode was actually attempted: success
/// on a clean exit, otherwise a failure carrying the diagnostic text.
pub fn outcome_from_transcode(result: Result<(), String>) -> (o: JobOutcome)
    ensures
        (match result {
            Ok(_) => o is Succeeded,
            Err(d) => o matches JobOutcome::Failed(m) && m@ == d@,
        }),
{
    match result {
        Ok(_) => JobOutcome::Succeeded,
        Err(d) => JobOutcome::Failed(d),
    }
}

/// How many outcomes are skips.
pub open spec fn count_skipped(s: Seq<JobOutcome>) -> nat
    decreases s.len(),
{
    if s.len() == 0 {
        0
    } else {
        count_skipped(s.drop_last()) + (if s.last() is Skipped {
            1nat
        } else {
            0nat
        })
    }
}

/// How many outcomes are successes.
pub open spec fn count_succeeded(s: Seq<JobOutcome>) -> nat
    decreases s.len(),
{
    if s.len() == 0 {
        0
    } else {
        count_succeeded(s.drop_last()) + (if s.last() is Succeeded {
            1nat
        } else {
            0nat
        })
    }
}

/// How many outcomes are failures.
pub open spec fn count_failed(s: Seq<JobOutcome>) -> nat
    decreases s.len(),
{
    if s.len() == 0 {
        0
    } else {
        count_failed(s.drop_last()) + (if s.last() is Failed {
            1nat
        } else {
            0nat
        })
    }
}

/// Every outcome is terminal and of exactly one kind, so the skipped,
/// succeeded and failed tallies together account for every job once.
pub proof fn lemma_outcome_partition(s: Seq<JobOutcome>)
    ensures
        count_skipped(s) + count_succeeded(s) + count_failed(s) == s.len(),
    decreases s.len(),
{
    if s.len() > 0 {
        lemma_outcome_partition(s.drop_last());
    }
}

/// The shared progress counter: one advance per job that reaches a
/// terminal state, over a fixed total.  The display around it lives
/// outside the library; this counter carries the counting discipline.
pub struct ProgressTracker {
    count: u64,
    total: u64,
}

impl ProgressTracker {
    /// The counter never runs past its total.
    pub open spec fn wf(&self) -> bool {
        self.spec_count() <= self.spec_total()
    }

    /// How far the counter has moved.
    pub closed spec fn spec_count(&self) -> u64 {
        self.count
    }

    /// The fixed number of jobs the counter runs over.
    pub closed spec fn spec_total(&self) -> u64 {
        self.total
    }

    /// A fresh counter over the given number of jobs.
    pub fn new(total: u64) -> (t: ProgressTracker)
        ensures
            t.spec_total() == total,
            t.spec_count() == 0,
            t.wf(),
    {
        ProgressTracker { count: 0, total }
    }

    /// One job reached a terminal state: the counter moves forward by
    /// exactly one.
    pub fn advance(&mut self)
        requires
            old(self).wf(),
            old(self).spec_count() < old(self).spec_total(),
        ensures
            final (self).spec_count() == old(self).spec_count() + 1,
            final (self).spec_total() == old(self).spec_total(),
            final (self).wf(),
    {
        self.count = self.count + 1;
    }

    /// How many jobs have reached a terminal state so far.
    pub fn position(&self) -> (n: u64)
        ensures
            n == self.spec_count(),
    {
        self.count
    }

    /// The total number of jobs the counter was created over.
    pub fn total(&self) -> (n: u64)
        ensures
            n == self.spec_total(),
    {
        self.total
    }

    /// Whether every job has reached a terminal state.
    pub fn is_finished(&self) -> (b: bool)
        ensures
            b == (self.spec_count() == self.spec_total()),
    {
        self.count == self.total
    }
}

/// Advances the progress counter exactly once per outcome — skipped,
/// succeeded and failed alike — so after a whole run the counter has
/// moved by exactly the number of jobs.
pub fn record_outcomes(tracker: &mut ProgressTracker, outcomes: &Vec<JobOutcome>)
    requires
        old(tracker).wf(),
        old(tracker).spec_count() + outcomes@.len() <= old(tracker).spec_total(),
    ensures
        final (tracker).spec_count() == old(tracker).spec_count() + outcomes@.len(),
        final (tracker).spec_total() == old(tracker).spec_total(),
        final (tracker).wf(),
{
    let mut i: usize = 0;
    proof {
        assert(outcomes@.skip(0) =~= outcomes@);
    }
    while i < outcomes.len()
        invariant
            i <= outcomes@.len(),
            tracker.wf(),
            tracker.spec_total() == old(tracker).spec_total(),
            tracker.spec_count() == old(tracker).spec_count() + i,
            old(tracker).spec_count() + outcomes@.len() <= old(tracker).spec_total(),
        decreases outcomes.len() - i,
    {
        tracker.advance();
        i = i + 1;
    }
}

} // verus!
