//! Batches of jobs that run a bounded number at a time and end with an
//! outcome each.

use vstd::prelude::*;

use crate::error::Error;
use crate::gate::{Gate, GateView};

verus! {

/// A batch of jobs behind an admission gate, with the outcome of each job
/// that is done.
pub ghost struct BatchView<O> {
    pub gate: GateView,
    pub outcomes: Seq<Option<O>>,
}

impl<O> BatchView<O> {
    /// The batch of `jobs` jobs before any has been started.
    pub open spec fn fresh(jobs: nat, limit: nat) -> BatchView<O> {
        BatchView { gate: GateView::fresh(jobs, limit), outcomes: Seq::new(jobs, |i: int| None) }
    }

    /// An outcome is known for exactly the jobs that are done.
    pub open spec fn wf(self) -> bool {
        &&& self.gate.wf()
        &&& self.outcomes.len() == self.gate.slots.len()
        &&& forall|i: int|
            0 <= i < self.outcomes.len() ==> ((#[trigger] self.outcomes[i]) is Some
                <==> self.gate.slots[i] is Finished)
    }

    /// The batch after its next waiting job has been started.
    pub open spec fn started(self) -> BatchView<O> {
        BatchView { gate: self.gate.grant(), ..self }
    }

    /// The batch after a running job has ended with the outcome.
    pub open spec fn completed(self, job: int, outcome: O) -> BatchView<O> {
        BatchView {
            gate: self.gate.release(job),
            outcomes: self.outcomes.update(job, Some(outcome)),
        }
    }

    /// The outcomes of all jobs, in the order of the jobs.
    pub open spec fn all_outcomes(self) -> Seq<O> {
        Seq::new(self.outcomes.len(), |i: int| self.outcomes[i].unwrap())
    }
}

/// Starting and completing jobs keeps a batch well formed, and so keeps the
/// number of running jobs within the limit.
pub proof fn lemma_batch_steps_wf<O>(batch: BatchView<O>, job: int, outcome: O)
    requires
        batch.wf(),
    ensures
        batch.gate.can_grant() ==> batch.started().wf(),
        batch.gate.holds_permit(job) ==> batch.completed(job, outcome).wf(),
{
    crate::gate::lemma_apply_wf(batch.gate, crate::gate::GateOp::Acquire);
    crate::gate::lemma_apply_wf(batch.gate, crate::gate::GateOp::Release(job));
}

/// Jobs that run at most `limit` at a time, each ending with an outcome.
#[derive(Debug)]
pub struct Batch<O> {
    gate: Gate,
    outcomes: Vec<Option<O>>,
}

impl<O> View for Batch<O> {
    type V = BatchView<O>;

    closed spec fn view(&self) -> BatchView<O> {
        BatchView { gate: self.gate@, outcomes: self.outcomes@ }
    }
}

impl<O> Batch<O> {
    #[verifier::type_invariant]
    spec fn inv(self) -> bool {
        self@.wf()
    }
}

impl<O: Copy> Batch<O> {
    /// A batch of `jobs` jobs of which at most `limit` run at a time. A
    /// limit of zero is refused: no job could ever start.
    pub fn new(jobs: usize, limit: usize) -> (batch: Result<Batch<O>, Error>)
        ensures
            limit >= 1 ==> batch is Ok && batch.unwrap()@ == BatchView::<O>::fresh(
                jobs as nat,
                limit as nat,
            ) && batch.unwrap()@.wf(),
            limit == 0 ==> batch == Err::<Batch<O>, Error>(Error::ConcurrencyAdmissionFailure),
    {
        let gate = match Gate::new(jobs, limit) {
            Ok(gate) => gate,
            Err(e) => { return Err(Error::ConcurrencyAdmissionFailure); },
        };
        let mut outcomes: Vec<Option<O>> = Vec::new();
        for i in 0..jobs
            invariant
                outcomes@ == Seq::new(i as nat, |k: int| None::<O>),
        {
            outcomes.push(None);
            assert(outcomes@ =~= Seq::new((i + 1) as nat, |k: int| None::<O>));
        }
        proof {
            crate::gate::lemma_fresh_wf(jobs as nat, limit as nat);
        }
        Ok(Batch { gate, outcomes })
    }

    /// Moves the batch out and leaves a batch without jobs in its place.
    fn take(&mut self) -> (batch: Batch<O>)
        ensures
            batch == *old(self),
    {
        proof {
            crate::gate::lemma_fresh_wf(0, 1);
        }
        let mut batch = Batch { gate: Gate::idle(), outcomes: Vec::new() };
        core::mem::swap(self, &mut batch);
        batch
    }

    /// Starts the next waiting job if a permit is free, and names it. Jobs
    /// start in their order.
    pub fn start_next(&mut self) -> (job: Option<usize>)
        ensures
            old(self)@.wf(),
            final(self)@.wf(),
            old(self)@.gate.can_grant() ==> job == Some(old(self)@.gate.admitted as usize)
                && final(self)@ == old(self)@.started(),
            !old(self)@.gate.can_grant() ==> job is None && final(self)@ == old(self)@,
    {
        proof {
            use_type_invariant(&*self);
        }
        let Batch { mut gate, outcomes } = self.take();
        let job = gate.try_acquire();
        *self = Batch { gate, outcomes };
        job
    }

    /// Records the outcome of a running job and frees its permit. Answers
    /// whether the job was running; if it was not, nothing changes.
    pub fn complete(&mut self, job: usize, outcome: O) -> (accepted: bool)
        ensures
            old(self)@.wf(),
            final(self)@.wf(),
            accepted == old(self)@.gate.holds_permit(job as int),
            accepted ==> final(self)@ == old(self)@.completed(job as int, outcome),
            !accepted ==> final(self)@ == old(self)@,
    {
        proof {
            use_type_invariant(&*self);
        }
        let Batch { mut gate, mut outcomes } = self.take();
        let accepted = gate.release(job);
        if accepted {
            outcomes.set(job, Some(outcome));
        }
        *self = Batch { gate, outcomes };
        accepted
    }

    /// The number of jobs that are running; never above the limit.
    pub fn in_flight(&self) -> (n: usize)
        ensures
            n == self@.gate.in_flight(),
            n <= self@.gate.limit,
    {
        self.gate.in_flight()
    }

    /// The number of jobs of the batch.
    pub fn jobs(&self) -> (jobs: usize)
        ensures
            jobs == self@.outcomes.len(),
            self@.wf(),
    {
        proof {
            use_type_invariant(self);
        }
        self.gate.jobs()
    }

    /// Whether every job is done.
    pub fn is_drained(&self) -> (done: bool)
        ensures
            done == self@.gate.drained(),
    {
        self.gate.is_drained()
    }

    /// The outcome of every job, in the order of the jobs, once all are
    /// done; nothing before that.
    pub fn outcomes(&self) -> (all: Option<Vec<O>>)
        ensures
            self@.wf(),
            self@.gate.drained() ==> all is Some && all.unwrap()@ == self@.all_outcomes(),
            !self@.gate.drained() ==> all is None,
    {
        proof {
            use_type_invariant(self);
        }
        if !self.gate.is_drained() {
            return None;
        }
        let mut all: Vec<O> = Vec::new();
        for i in 0..self.outcomes.len()
            invariant
                self@.wf(),
                self@.gate.drained(),
                all@ == self@.all_outcomes().take(i as int),
        {
            match self.outcomes[i] {
                Some(outcome) => {
                    all.push(outcome);
                    assert(all@ =~= self@.all_outcomes().take(i + 1));
                },
                None => {
                    assert(self@.gate.slots[i as int] is Finished);
                    assert(false);
                },
            }
        }
        assert(all@ =~= self@.all_outcomes());
        Some(all)
    }
}

} // verus!
