//! The job executor: strict sequential execution of a job batch, up to
//! three attempts per job, one memory record per job that eventually
//! succeeds, and an abort on the first job whose budget runs out. The
//! decision logic is verified against a model over the sequence of
//! per-attempt outcomes; the browser calls themselves are made by the
//! driving loop between steps.

use vstd::prelude::*;

use crate::jobs::{action_name_spec, job_target_spec, BrowserJob, JobView};
use crate::memory::{add_all_spec, add_spec, AgentMemory, MemoryEntry, MemoryEntryView};
use crate::types::BrowserError;

verus! {

/// How one job fares given per-attempt outcomes from position `oi` and a
/// budget of `tries` attempts: whether it eventually succeeded, and the
/// position after its consumed outcomes.
pub open spec fn attempt_job(outcomes: Seq<bool>, oi: int, tries: nat) -> (bool, int)
    decreases tries,
{
    if oi < outcomes.len() && outcomes[oi] {
        (true, oi + 1)
    } else if tries <= 1 {
        (false, oi + 1)
    } else {
        attempt_job(outcomes, oi + 1, (tries - 1) as nat)
    }
}

/// The outcome of a whole batch.
pub struct BatchOutcome {
    /// The jobs that eventually succeeded, in execution order.
    pub succeeded: Seq<JobView>,
    /// Whether the whole batch completed.
    pub ok: bool,
}

/// The batch model: each job in order gets up to three attempts; the first
/// job whose budget runs out aborts the rest.
pub open spec fn run_model(jobs: Seq<JobView>, outcomes: Seq<bool>, oi: int) -> BatchOutcome
    decreases jobs.len(),
{
    if jobs.len() == 0 {
        BatchOutcome { succeeded: Seq::empty(), ok: true }
    } else {
        let (ok, oi2) = attempt_job(outcomes, oi, 3);
        if ok {
            let rest = run_model(jobs.drop_first(), outcomes, oi2);
            BatchOutcome { succeeded: seq![jobs[0]] + rest.succeeded, ok: rest.ok }
        } else {
            BatchOutcome { succeeded: Seq::empty(), ok: false }
        }
    }
}

/// Runs a batch against a fixed sequence of per-attempt outcomes, one per
/// browser call: the verified model of the retrying executor, as the
/// driving loop performs it. Appends to the memory exactly one entry per
/// job that eventually succeeded, in execution order, and returns the
/// executed jobs.
pub fn run_jobs_with_outcomes(
    jobs: &Vec<BrowserJob>,
    page_url: &Option<String>,
    outcomes: &Vec<bool>,
    memory: &mut AgentMemory,
) -> (r: (Result<(), BrowserError>, Vec<BrowserJob>))
    requires
        outcomes@.len() >= jobs@.len() * 3,
    ensures
        ({
            let model = run_model(jobs@.map_values(|j: BrowserJob| j@), outcomes@, 0);
            &&& r.1@.map_values(|j: BrowserJob| j@) == model.succeeded
            &&& (model.ok <==> r.0 is Ok)
            &&& (!model.ok ==> (r.0 matches Err(e) && e matches BrowserError::OperationError(_)))
            &&& final(memory).capacity() == old(memory).capacity()
            &&& exists|new_es: Seq<MemoryEntryView>|
                {
                    &&& new_es.len() == model.succeeded.len()
                    &&& (forall|t: int|
                        0 <= t < new_es.len() ==> (#[trigger] new_es[t]).job == model.succeeded[t]
                            && new_es[t].action == action_name_spec(model.succeeded[t])
                            && new_es[t].selector == Some(job_target_spec(model.succeeded[t]))
                            && new_es[t].page_url == page_url.deep_view()
                            && new_es[t].page_title is None && new_es[t].dom_snapshot is None)
                    &&& final(memory).entries() == add_all_spec(
                        old(memory).entries(),
                        new_es,
                        old(memory).capacity(),
                    )
                }
        }),
{
    let ghost jobs_v = jobs@.map_values(|j: BrowserJob| j@);
    let mut executed: Vec<BrowserJob> = Vec::new();
    let ghost mut new_es: Seq<MemoryEntryView> = Seq::empty();
    let mut oi: usize = 0;
    let mut ji: usize = 0;
    let n: usize = jobs.len();
    let m: usize = outcomes.len();
    proof {
        assert(add_all_spec(old(memory).entries(), new_es, old(memory).capacity()) == old(
            memory,
        ).entries());
        assert(jobs_v.skip(0) =~= jobs_v);
        assert(Seq::<JobView>::empty() + run_model(jobs_v, outcomes@, 0).succeeded =~= run_model(
            jobs_v,
            outcomes@,
            0,
        ).succeeded);
        assert(executed@.map_values(|j: BrowserJob| j@) =~= Seq::<JobView>::empty());
    }
    while ji < n
        invariant
            ji <= n,
            n == jobs@.len(),
            m == outcomes@.len(),
            outcomes@.len() >= jobs@.len() * 3,
            jobs_v == jobs@.map_values(|j: BrowserJob| j@),
            oi <= 3 * ji,
            memory.capacity() == old(memory).capacity(),
            memory.entries() == add_all_spec(
                old(memory).entries(),
                new_es,
                old(memory).capacity(),
            ),
            executed@.map_values(|j: BrowserJob| j@).len() == new_es.len(),
            ({
                let model = run_model(jobs_v, outcomes@, 0);
                let rest = run_model(jobs_v.skip(ji as int), outcomes@, oi as int);
                &&& model.succeeded == executed@.map_values(|j: BrowserJob| j@) + rest.succeeded
                &&& model.ok == rest.ok
            }),
            forall|t: int|
                0 <= t < new_es.len() ==> (#[trigger] new_es[t]).job == executed@.map_values(
                    |j: BrowserJob| j@,
                )[t] && new_es[t].action == action_name_spec(new_es[t].job) && new_es[t].selector
                    == Some(job_target_spec(new_es[t].job)) && new_es[t].page_url
                    == page_url.deep_view() && new_es[t].page_title is None
                    && new_es[t].dom_snapshot is None,
        decreases n - ji,
    {
        let job = &jobs[ji];
        let ghost oi0 = oi as int;
        proof {
            assert(3 * ji + 3 <= 3 * n) by (nonlinear_arith)
                requires
                    ji < n,
            ;
        }
        let mut attempts: usize = 0;
        let mut success: bool = false;
        loop
            invariant
                attempts <= 2,
                oi == oi0 + attempts,
                0 <= oi0,
                oi0 + 3 <= m,
                m == outcomes@.len(),
                !success ==> attempt_job(outcomes@, oi0, 3) == attempt_job(
                    outcomes@,
                    oi as int,
                    (3 - attempts) as nat,
                ),
                success ==> oi < m && outcomes@[oi as int] && attempt_job(outcomes@, oi0, 3) == (
                    true,
                    oi + 1,
                ),
            ensures
                oi0 <= oi < m,
                m == outcomes@.len(),
                success ==> outcomes@[oi as int] && attempt_job(outcomes@, oi0, 3) == (
                    true,
                    oi + 1,
                ),
                !success ==> attempt_job(outcomes@, oi0, 3) == (false, oi + 1),
            decreases 2 - attempts,
        {
            let ok = outcomes[oi];
            if ok {
                success = true;
                proof {
                    assert(attempt_job(outcomes@, oi as int, (3 - attempts) as nat) == (
                        true,
                        oi + 1,
                    ));
                }
                break ;
            }
            if attempts < 2 {
                proof {
                    assert(attempt_job(outcomes@, oi as int, (3 - attempts) as nat)
                        == attempt_job(outcomes@, oi + 1, (3 - (attempts + 1)) as nat));
                }
                attempts = attempts + 1;
                oi = oi + 1;
            } else {
                proof {
                    assert(attempt_job(outcomes@, oi as int, 1nat) == (false, oi + 1));
                }
                break ;
            }
        }
        if !success {
            // the budget for this job is exhausted: abort the batch
            proof {
                let rest = run_model(jobs_v.skip(ji as int), outcomes@, oi0);
                assert(jobs_v.skip(ji as int).len() > 0);
                assert(!rest.ok && rest.succeeded =~= Seq::<JobView>::empty());
                let model = run_model(jobs_v, outcomes@, 0);
                assert(model.succeeded =~= executed@.map_values(|j: BrowserJob| j@));
            }
            let mut msg = String::from_str("job failed after 3 attempts: ");
            msg.append(job.target().as_str());
            return (Err(BrowserError::OperationError(msg)), executed);
        }
        // the job succeeded on this attempt: record it
        let entry = MemoryEntry::new(job, crate::strutil::clone_opt_string(page_url));
        proof {
            crate::memory::lemma_add_all_snoc(
                old(memory).entries(),
                new_es,
                entry@,
                old(memory).capacity(),
            );
        }
        memory.add(entry);
        proof {
            new_es = new_es.push(entry@);
        }
        executed.push(job.duplicate());
        oi = oi + 1;
        ji = ji + 1;
        proof {
            let rest_old = run_model(jobs_v.skip(ji - 1), outcomes@, oi0);
            let rest_new = run_model(jobs_v.skip(ji as int), outcomes@, oi as int);
            assert(jobs_v.skip(ji - 1).drop_first() =~= jobs_v.skip(ji as int));
            assert(jobs_v.skip(ji - 1)[0] == jobs_v[ji - 1]);
            assert(rest_old.succeeded == seq![jobs_v[ji - 1]] + rest_new.succeeded);
            let em = executed@.map_values(|j: BrowserJob| j@);
            assert(em =~= em.subrange(0, em.len() - 1).push(jobs_v[ji - 1]));
            assert(em.subrange(0, em.len() - 1) + (seq![jobs_v[ji - 1]] + rest_new.succeeded)
                =~= em + rest_new.succeeded);
        }
    }
    proof {
        let model = run_model(jobs_v, outcomes@, 0);
        assert(jobs_v.skip(n as int) =~= Seq::<JobView>::empty());
        assert(model.succeeded =~= executed@.map_values(|j: BrowserJob| j@));
    }
    (Ok(()), executed)
}

/// How many of the planned jobs were executed as planned, position by
/// position, over the first `i` positions.
pub open spec fn matched_to(a: Seq<JobView>, b: Seq<JobView>, i: int) -> nat
    decreases i,
{
    if i <= 0 {
        0
    } else {
        matched_to(a, b, i - 1) + (if a[i - 1] == b[i - 1] {
            1nat
        } else {
            0nat
        })
    }
}

/// The number of positions, up to the shorter list's length, where the
/// planned and the executed job agree.
pub open spec fn matched_spec(a: Seq<JobView>, b: Seq<JobView>) -> nat {
    matched_to(a, b, if a.len() <= b.len() {
        a.len() as int
    } else {
        b.len() as int
    })
}

/// Counts the positions where planned and executed jobs agree; an empty
/// plan is an error. The adherence ratio is this count over the plan
/// length.
pub fn matched_jobs_count(planned: &Vec<BrowserJob>, executed: &Vec<BrowserJob>) -> (r: Result<
    usize,
    BrowserError,
>)
    ensures
        planned@.len() == 0 ==> (r matches Err(e) && e matches BrowserError::OperationError(_)),
        planned@.len() > 0 ==> r == Ok::<usize, BrowserError>(
            matched_spec(
                planned@.map_values(|j: BrowserJob| j@),
                executed@.map_values(|j: BrowserJob| j@),
            ) as usize,
        ),
{
    if planned.len() == 0 {
        return Err(BrowserError::OperationError(String::from_str("no planned jobs to evaluate")));
    }
    let ghost a = planned@.map_values(|j: BrowserJob| j@);
    let ghost b = executed@.map_values(|j: BrowserJob| j@);
    let n: usize = if planned.len() <= executed.len() {
        planned.len()
    } else {
        executed.len()
    };
    let mut count: usize = 0;
    let mut i: usize = 0;
    while i < n
        invariant
            i <= n,
            n == if a.len() <= b.len() {
                a.len() as int
            } else {
                b.len() as int
            },
            a == planned@.map_values(|j: BrowserJob| j@),
            b == executed@.map_values(|j: BrowserJob| j@),
            count == matched_to(a, b, i as int),
            count <= i,
        decreases n - i,
    {
        if crate::jobs::job_eq(&planned[i], &executed[i]) {
            count = count + 1;
        }
        i = i + 1;
    }
    Ok(count)
}

/// The stepwise executor a driving loop feeds one outcome at a time: it
/// keeps the batch position and the attempt count, and applies the same
/// decisions as the batch model.
pub struct JobExecutor {
    /// The batch, in execution order.
    pub jobs: Vec<BrowserJob>,
    /// The next job to run.
    pub index: usize,
    /// Failed attempts of the current job so far.
    pub attempts: usize,
}

impl JobExecutor {
    pub fn new(jobs: Vec<BrowserJob>) -> (r: Self)
        ensures
            r.jobs@ == jobs@,
            r.index == 0,
            r.attempts == 0,
    {
        JobExecutor { jobs, index: 0, attempts: 0 }
    }

    /// The job to attempt next, if any is left.
    pub fn current(&self) -> (r: Option<&BrowserJob>)
        ensures
            match r {
                Some(j) => self.index < self.jobs@.len() && j@ == self.jobs@[self.index as int]@,
                None => self.index >= self.jobs@.len(),
            },
    {
        if self.index < self.jobs.len() {
            Some(&self.jobs[self.index])
        } else {
            None
        }
    }

    /// Records a successful attempt of the current job: exactly one memory
    /// entry is appended, and the executor moves to the next job.
    pub fn record_success(&mut self, page_url: &Option<String>, memory: &mut AgentMemory)
        requires
            old(self).index < old(self).jobs@.len(),
        ensures
            final(self).jobs@ == old(self).jobs@,
            final(self).index == old(self).index + 1,
            final(self).attempts == 0,
            final(memory).capacity() == old(memory).capacity(),
            ({
                let j = old(self).jobs@[old(self).index as int]@;
                exists|e: MemoryEntryView|
                    {
                        &&& final(memory).entries() == add_spec(
                            old(memory).entries(),
                            e,
                            old(memory).capacity(),
                        )
                        &&& (#[trigger] e.job) == j
                        &&& e.action == action_name_spec(j)
                        &&& e.selector == Some(job_target_spec(j))
                        &&& e.page_url == page_url.deep_view()
                    }
            }),
    {
        let n: usize = self.jobs.len();
        let entry = MemoryEntry::new(&self.jobs[self.index], crate::strutil::clone_opt_string(page_url));
        let ghost ev = entry@;
        memory.add(entry);
        self.index = self.index + 1;
        self.attempts = 0;
        proof {
            assert(ev.job == old(self).jobs@[old(self).index as int]@);
        }
    }

    /// Records a failed attempt of the current job: up to two retries are
    /// granted, unconditionally; the third failure is fatal and the batch
    /// aborts with the remaining jobs never run.
    pub fn record_failure(&mut self) -> (retry: bool)
        requires
            old(self).index < old(self).jobs@.len(),
        ensures
            final(self).jobs@ == old(self).jobs@,
            final(self).index == old(self).index,
            retry == (old(self).attempts < 2),
            final(self).attempts == if old(self).attempts < 2 {
                old(self).attempts + 1
            } else {
                old(self).attempts as int
            },
    {
        if self.attempts < 2 {
            self.attempts = self.attempts + 1;
            true
        } else {
            false
        }
    }
}

} // verus!
