//! The outcomes of a batch: every job has one slot, a job's outcome goes
//! into its own slot and touches no other, and the batch is done when no slot
//! is empty.

use crate::fallback::{failure_views, Fallback, Progress};
use crate::model::{ErrorKind, JobOutcome};
use vstd::prelude::*;

verus! {

/// How a job ended, without the reason of a failure.
pub enum Verdict {
    Downloaded,
    NotFound,
    Failed,
    SkippedDuplicate,
}

impl JobOutcome {
    pub open spec fn verdict(self) -> Verdict {
        match self {
            JobOutcome::Downloaded => Verdict::Downloaded,
            JobOutcome::NotFound => Verdict::NotFound,
            JobOutcome::Failed { .. } => Verdict::Failed,
            JobOutcome::SkippedDuplicate => Verdict::SkippedDuplicate,
        }
    }

    /// A copy of the outcome.
    pub fn duplicate(&self) -> (r: JobOutcome)
        ensures
            r == *self,
    {
        match self {
            JobOutcome::Downloaded => JobOutcome::Downloaded,
            JobOutcome::NotFound => JobOutcome::NotFound,
            JobOutcome::Failed { reason } => JobOutcome::Failed { reason: reason.clone() },
            JobOutcome::SkippedDuplicate => JobOutcome::SkippedDuplicate,
        }
    }
}

/// Whether a failure of this kind is an absence: the provider has no
/// version for the mod, or does not know the mod at all. Neither is an error.
pub open spec fn is_absence(kind: ErrorKind) -> bool {
    kind == ErrorKind::NotFound || kind == ErrorKind::IdentityUnknown
}

/// The first failure among the first `n` that is not an absence.
pub open spec fn first_error(failures: Seq<(crate::cli::Source, (ErrorKind, Seq<char>))>, n: nat) -> Option<
    Seq<char>,
>
    decreases n,
{
    if n == 0 {
        None
    } else {
        match first_error(failures, (n - 1) as nat) {
            Some(reason) => Some(reason),
            None => if !is_absence(failures[n - 1].1.0) {
                Some(failures[n - 1].1.1)
            } else {
                None
            },
        }
    }
}

/// How the job of an orchestrator ended: a provider that served the mod
/// makes it downloaded; where every provider tried had no version for it, it
/// was not found; otherwise it failed, for the reason of the first provider
/// that failed otherwise.
pub open spec fn ends_as(p: Progress, outcome: JobOutcome) -> bool {
    match outcome {
        JobOutcome::Downloaded => p.served,
        JobOutcome::NotFound => !p.served && first_error(p.failures, p.failures.len()) is None,
        JobOutcome::Failed { reason } => !p.served && first_error(p.failures, p.failures.len())
            == Some(reason@),
        JobOutcome::SkippedDuplicate => false,
    }
}

/// The outcome of the job of an orchestrator.
pub fn job_outcome(f: &Fallback) -> (r: JobOutcome)
    requires
        f.wf(),
    ensures
        ends_as(f@, r),
{
    if f.served {
        return JobOutcome::Downloaded;
    }
    let mut i: usize = 0;
    while i < f.failures.len()
        invariant
            i <= f.failures.len(),
            !f.served,
            first_error(failure_views(f.failures@), i as nat) is None,
        decreases f.failures.len() - i,
    {
        assert(failure_views(f.failures@)[i as int] == f.failures@[i as int]@);
        let kind = f.failures[i].problem.kind;
        if kind != ErrorKind::NotFound && kind != ErrorKind::IdentityUnknown {
            let reason = f.failures[i].problem.reason.clone();
            proof {
                assert(first_error(failure_views(f.failures@), (i + 1) as nat) == Some(reason@));
                lemma_first_error_stays(
                    failure_views(f.failures@),
                    (i + 1) as nat,
                    f.failures.len() as nat,
                );
            }
            return JobOutcome::Failed { reason };
        }
        i = i + 1;
    }
    JobOutcome::NotFound
}

/// Once an error is found among the first failures, it is the first error of all.
pub proof fn lemma_first_error_stays(
    failures: Seq<(crate::cli::Source, (ErrorKind, Seq<char>))>,
    n: nat,
    m: nat,
)
    requires
        n <= m,
        first_error(failures, n) is Some,
    ensures
        first_error(failures, m) == first_error(failures, n),
    decreases m - n,
{
    if n < m {
        lemma_first_error_stays(failures, n, (m - 1) as nat);
    }
}

/// The outcomes of a batch of jobs.
pub struct Batch {
    /// One slot for each job: `None` until the job has ended.
    pub slots: Vec<Option<JobOutcome>>,
}

impl View for Batch {
    type V = Seq<Option<JobOutcome>>;

    open spec fn view(&self) -> Seq<Option<JobOutcome>> {
        self.slots@
    }
}

/// How many of the first `n` slots hold an outcome of the given verdict.
pub open spec fn count_of(slots: Seq<Option<JobOutcome>>, verdict: Verdict, n: nat) -> nat
    decreases n,
{
    if n == 0 {
        0
    } else {
        count_of(slots, verdict, (n - 1) as nat) + if slots[n - 1] matches Some(outcome)
            && outcome.verdict() == verdict {
            1nat
        } else {
            0nat
        }
    }
}

/// Whether a slot holds a failure.
pub open spec fn is_failed(slot: Option<JobOutcome>) -> bool {
    slot matches Some(JobOutcome::Failed { .. })
}

/// Whether every slot holds an outcome.
pub open spec fn complete(slots: Seq<Option<JobOutcome>>) -> bool {
    forall|i: int| 0 <= i < slots.len() ==> slots[i] is Some
}

/// How many jobs ended in each way.
#[derive(Debug, Clone, Copy, PartialEq, Eq, Structural)]
pub struct Summary {
    pub downloaded: usize,
    pub not_found: usize,
    pub failed: usize,
    pub skipped: usize,
}

/// A count is at most the number of slots counted.
pub proof fn lemma_count_bound(slots: Seq<Option<JobOutcome>>, verdict: Verdict, n: nat)
    ensures
        count_of(slots, verdict, n) <= n,
    decreases n,
{
    if n > 0 {
        lemma_count_bound(slots, verdict, (n - 1) as nat);
    }
}

/// Outcomes recorded for two different jobs do not depend on the order in
/// which they arrive.
pub proof fn lemma_record_order(slots: Seq<Option<JobOutcome>>, a: int, x: JobOutcome, b: int, y: JobOutcome)
    requires
        0 <= a < slots.len(),
        0 <= b < slots.len(),
        a != b,
    ensures
        slots.update(a, Some(x)).update(b, Some(y)) == slots.update(b, Some(y)).update(a, Some(x)),
{
    assert(slots.update(a, Some(x)).update(b, Some(y)) =~= slots.update(b, Some(y)).update(a, Some(x)));
}

impl Batch {
    /// A batch of `jobs` jobs, none of which has ended.
    pub fn new(jobs: usize) -> (b: Batch)
        ensures
            b@.len() == jobs,
            forall|i: int| 0 <= i < jobs ==> b@[i] is None,
    {
        let mut slots: Vec<Option<JobOutcome>> = Vec::new();
        let mut i: usize = 0;
        while i < jobs
            invariant
                i <= jobs,
                slots@.len() == i,
                forall|j: int| 0 <= j < i ==> slots@[j] is None,
            decreases jobs - i,
        {
            slots.push(None);
            i = i + 1;
        }
        Batch { slots }
    }

    /// How many jobs the batch has.
    pub fn len(&self) -> (n: usize)
        ensures
            n == self@.len(),
    {
        self.slots.len()
    }

    /// Records how job `job` ended. The slots of the other jobs stay as they
    /// are; a job that the batch does not have is not recorded.
    pub fn record(&mut self, job: usize, outcome: JobOutcome) -> (recorded: bool)
        ensures
            recorded == (job < old(self)@.len()),
            final(self)@ == if job < old(self)@.len() {
                old(self)@.update(job as int, Some(outcome))
            } else {
                old(self)@
            },
    {
        if job < self.slots.len() {
            self.slots.set(job, Some(outcome));
            true
        } else {
            false
        }
    }

    /// Whether every job has ended.
    pub fn is_complete(&self) -> (r: bool)
        ensures
            r == complete(self@),
    {
        let mut i: usize = 0;
        while i < self.slots.len()
            invariant
                i <= self.slots.len(),
                forall|j: int| 0 <= j < i ==> self@[j] is Some,
            decreases self.slots.len() - i,
        {
            if self.slots[i].is_none() {
                return false;
            }
            i = i + 1;
        }
        true
    }

    /// The outcomes, one for each job and in the order of the jobs; `None`
    /// while a job has not ended.
    pub fn outcomes(&self) -> (r: Option<Vec<JobOutcome>>)
        ensures
            match r {
                Some(outcomes) => complete(self@) && outcomes@.len() == self@.len() && forall|i: int|
                    0 <= i < self@.len() ==> self@[i] == Some(#[trigger] outcomes@[i]),
                None => !complete(self@),
            },
    {
        let mut outcomes: Vec<JobOutcome> = Vec::new();
        let mut i: usize = 0;
        while i < self.slots.len()
            invariant
                i <= self.slots.len(),
                outcomes@.len() == i,
                forall|j: int| 0 <= j < i ==> self@[j] == Some(#[trigger] outcomes@[j]),
            decreases self.slots.len() - i,
        {
            match &self.slots[i] {
                Some(outcome) => {
                    outcomes.push(outcome.duplicate());
                },
                None => {
                    return None;
                },
            }
            i = i + 1;
        }
        proof {
            assert forall|j: int| 0 <= j < self@.len() implies self@[j] is Some by {
                assert(self@[j] == Some(outcomes@[j]));
            }
        }
        Some(outcomes)
    }

    /// How many jobs ended in each way so far.
    pub fn summary(&self) -> (s: Summary)
        ensures
            s.downloaded == count_of(self@, Verdict::Downloaded, self@.len()),
            s.not_found == count_of(self@, Verdict::NotFound, self@.len()),
            s.failed == count_of(self@, Verdict::Failed, self@.len()),
            s.skipped == count_of(self@, Verdict::SkippedDuplicate, self@.len()),
    {
        let mut s = Summary { downloaded: 0, not_found: 0, failed: 0, skipped: 0 };
        let mut i: usize = 0;
        while i < self.slots.len()
            invariant
                i <= self.slots.len(),
                s.downloaded == count_of(self@, Verdict::Downloaded, i as nat),
                s.not_found == count_of(self@, Verdict::NotFound, i as nat),
                s.failed == count_of(self@, Verdict::Failed, i as nat),
                s.skipped == count_of(self@, Verdict::SkippedDuplicate, i as nat),
            decreases self.slots.len() - i,
        {
            proof {
                lemma_count_bound(self@, Verdict::Downloaded, i as nat);
                lemma_count_bound(self@, Verdict::NotFound, i as nat);
                lemma_count_bound(self@, Verdict::Failed, i as nat);
                lemma_count_bound(self@, Verdict::SkippedDuplicate, i as nat);
            }
            match &self.slots[i] {
                Some(JobOutcome::Downloaded) => {
                    s.downloaded = s.downloaded + 1;
                },
                Some(JobOutcome::NotFound) => {
                    s.not_found = s.not_found + 1;
                },
                Some(JobOutcome::Failed { .. }) => {
                    s.failed = s.failed + 1;
                },
                Some(JobOutcome::SkippedDuplicate) => {
                    s.skipped = s.skipped + 1;
                },
                None => {},
            }
            i = i + 1;
        }
        s
    }

    /// The first job that failed, with its reason: what a request for one
    /// named mod reports as the failure of the whole.
    pub fn first_failure(&self) -> (r: Option<(usize, String)>)
        ensures
            match r {
                Some((job, reason)) => job < self@.len() && self@[job as int] == Some(
                    JobOutcome::Failed { reason },
                ) && forall|j: int| 0 <= j < job ==> !is_failed(#[trigger] self@[j]),
                None => forall|j: int| 0 <= j < self@.len() ==> !is_failed(#[trigger] self@[j]),
            },
    {
        let mut i: usize = 0;
        while i < self.slots.len()
            invariant
                i <= self.slots.len(),
                forall|j: int| 0 <= j < i ==> !is_failed(#[trigger] self@[j]),
            decreases self.slots.len() - i,
        {
            match &self.slots[i] {
                Some(JobOutcome::Failed { reason }) => {
                    return Some((i, reason.clone()));
                },
                _ => {},
            }
            i = i + 1;
        }
        None
    }
}

} // verus!
