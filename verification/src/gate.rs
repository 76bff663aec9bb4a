//! The counting admission gate that bounds how many jobs of a batch run at
//! a time.

use vstd::prelude::*;

use crate::error::Error;

verus! {

/// Where one job of a batch stands.
#[derive(Debug, Clone, Copy, PartialEq, Eq, Structural)]
pub enum Slot {
    /// Not admitted yet.
    Waiting,
    /// Admitted and holding a permit.
    Running,
    /// Done; its permit is back.
    Finished,
}

/// How many jobs hold a permit.
pub open spec fn running_count(slots: Seq<Slot>) -> nat
    decreases slots.len(),
{
    if slots.len() == 0 {
        0
    } else {
        running_count(slots.drop_last()) + if slots.last() is Running {
            1nat
        } else {
            0nat
        }
    }
}

/// The admission gate of one batch: a permit limit and the state of each
/// job. Jobs are admitted in their order.
pub ghost struct GateView {
    pub limit: nat,
    pub slots: Seq<Slot>,
    pub admitted: nat,
}

impl GateView {
    /// What a batch of `jobs` jobs starts from: no job is admitted yet.
    pub open spec fn fresh(jobs: nat, limit: nat) -> GateView {
        GateView { limit, slots: Seq::new(jobs, |i: int| Slot::Waiting), admitted: 0 }
    }

    pub open spec fn in_flight(self) -> nat {
        running_count(self.slots)
    }

    pub open spec fn wf(self) -> bool {
        &&& self.limit >= 1
        &&& self.admitted <= self.slots.len()
        &&& forall|i: int|
            0 <= i < self.slots.len() ==> ((#[trigger] self.slots[i]) is Waiting <==> i
                >= self.admitted)
        &&& self.in_flight() <= self.limit
    }

    /// A permit is free and a job is waiting for it.
    pub open spec fn can_grant(self) -> bool {
        self.admitted < self.slots.len() && self.in_flight() < self.limit
    }

    /// The state after the next waiting job has taken a permit.
    pub open spec fn grant(self) -> GateView {
        GateView {
            slots: self.slots.update(self.admitted as int, Slot::Running),
            admitted: self.admitted + 1,
            ..self
        }
    }

    pub open spec fn holds_permit(self, job: int) -> bool {
        0 <= job < self.slots.len() && self.slots[job] is Running
    }

    /// The state after the job has handed its permit back.
    pub open spec fn release(self, job: int) -> GateView {
        GateView { slots: self.slots.update(job, Slot::Finished), ..self }
    }

    /// Every job is done.
    pub open spec fn drained(self) -> bool {
        forall|i: int| 0 <= i < self.slots.len() ==> (#[trigger] self.slots[i]) is Finished
    }
}

/// One request made of a gate.
pub enum GateOp {
    Acquire,
    Release(int),
}

/// The state after a request; a request that cannot be granted changes
/// nothing.
pub open spec fn apply(gate: GateView, op: GateOp) -> GateView {
    match op {
        GateOp::Acquire => if gate.can_grant() {
            gate.grant()
        } else {
            gate
        },
        GateOp::Release(job) => if gate.holds_permit(job) {
            gate.release(job)
        } else {
            gate
        },
    }
}

/// The state after a sequence of requests.
pub open spec fn run(gate: GateView, ops: Seq<GateOp>) -> GateView
    decreases ops.len(),
{
    if ops.len() == 0 {
        gate
    } else {
        apply(run(gate, ops.drop_last()), ops.last())
    }
}

pub proof fn lemma_running_count_bounds(slots: Seq<Slot>)
    ensures
        running_count(slots) <= slots.len(),
        running_count(slots) == 0 <==> forall|i: int|
            0 <= i < slots.len() ==> !((#[trigger] slots[i]) is Running),
    decreases slots.len(),
{
    if slots.len() > 0 {
        let front = slots.drop_last();
        lemma_running_count_bounds(front);
        if running_count(slots) == 0 {
            assert forall|i: int| 0 <= i < slots.len() implies !((#[trigger] slots[i]) is Running) by {
                if i < front.len() {
                    assert(front[i] == slots[i]);
                }
            }
        } else if forall|i: int| 0 <= i < slots.len() ==> !((#[trigger] slots[i]) is Running) {
            assert forall|i: int| 0 <= i < front.len() implies !((#[trigger] front[i]) is Running) by {
                assert(front[i] == slots[i]);
            }
        }
    }
}

/// Changing one job's state changes the number of permit holders by what
/// that job contributes.
pub proof fn lemma_running_count_update(slots: Seq<Slot>, job: int, to: Slot)
    requires
        0 <= job < slots.len(),
    ensures
        running_count(slots.update(job, to)) + (if slots[job] is Running {
            1nat
        } else {
            0nat
        }) == running_count(slots) + (if to is Running {
            1nat
        } else {
            0nat
        }),
    decreases slots.len(),
{
    let after = slots.update(job, to);
    if job == slots.len() - 1 {
        assert(after.drop_last() =~= slots.drop_last());
    } else {
        assert(after.drop_last() =~= slots.drop_last().update(job, to));
        lemma_running_count_update(slots.drop_last(), job, to);
    }
}

/// A gate that has admitted nothing is well formed and holds no permit.
pub proof fn lemma_fresh_wf(jobs: nat, limit: nat)
    requires
        limit >= 1,
    ensures
        GateView::fresh(jobs, limit).wf(),
        GateView::fresh(jobs, limit).in_flight() == 0,
{
    lemma_running_count_bounds(GateView::fresh(jobs, limit).slots);
}

/// Granting or refusing a request keeps an admission gate well formed.
pub proof fn lemma_apply_wf(gate: GateView, op: GateOp)
    requires
        gate.wf(),
    ensures
        apply(gate, op).wf(),
{
    match op {
        GateOp::Acquire => {
            if gate.can_grant() {
                lemma_running_count_update(gate.slots, gate.admitted as int, Slot::Running);
            }
        },
        GateOp::Release(job) => {
            if gate.holds_permit(job) {
                lemma_running_count_update(gate.slots, job, Slot::Finished);
            }
        },
    }
}

/// However the jobs of a batch ask for permits and hand them back, at no
/// point do more jobs hold a permit than the limit allows.
pub proof fn lemma_never_over_limit(jobs: nat, limit: nat, ops: Seq<GateOp>)
    requires
        limit >= 1,
    ensures
        forall|n: int|
            0 <= n <= ops.len() ==> (#[trigger] run(
                GateView::fresh(jobs, limit),
                ops.take(n),
            )).in_flight() <= limit,
{
    assert forall|n: int| 0 <= n <= ops.len() implies (#[trigger] run(
        GateView::fresh(jobs, limit),
        ops.take(n),
    )).in_flight() <= limit by {
        lemma_fresh_wf(jobs, limit);
        lemma_run_wf(GateView::fresh(jobs, limit), ops.take(n));
    }
}

/// A well-formed gate stays well formed, with its limit, under any sequence
/// of requests.
pub proof fn lemma_run_wf(gate: GateView, ops: Seq<GateOp>)
    requires
        gate.wf(),
    ensures
        run(gate, ops).wf(),
        run(gate, ops).limit == gate.limit,
        run(gate, ops).slots.len() == gate.slots.len(),
    decreases ops.len(),
{
    if ops.len() > 0 {
        lemma_run_wf(gate, ops.drop_last());
        lemma_apply_wf(run(gate, ops.drop_last()), ops.last());
    }
}

/// The counting admission gate of one batch.
#[derive(Debug)]
pub struct Gate {
    limit: usize,
    slots: Vec<Slot>,
    admitted: usize,
    running: usize,
}

impl View for Gate {
    type V = GateView;

    closed spec fn view(&self) -> GateView {
        GateView { limit: self.limit as nat, slots: self.slots@, admitted: self.admitted as nat }
    }
}

impl Gate {
    #[verifier::type_invariant]
    spec fn inv(self) -> bool {
        &&& self@.wf()
        &&& self.running == running_count(self.slots@)
    }

    /// A gate for `jobs` jobs of which at most `limit` run at a time. A
    /// limit of zero could never hand out a permit and is refused.
    pub fn new(jobs: usize, limit: usize) -> (gate: Result<Gate, Error>)
        ensures
            limit >= 1 ==> gate is Ok && gate.unwrap()@ == GateView::fresh(jobs as nat, limit as nat)
                && gate.unwrap()@.wf() && gate.unwrap()@.in_flight() == 0,
            limit == 0 ==> gate == Err::<Gate, Error>(Error::ConcurrencyAdmissionFailure),
    {
        if limit == 0 {
            return Err(Error::ConcurrencyAdmissionFailure);
        }
        let mut slots: Vec<Slot> = Vec::new();
        for i in 0..jobs
            invariant
                slots@ == Seq::new(i as nat, |k: int| Slot::Waiting),
        {
            slots.push(Slot::Waiting);
            assert(slots@ =~= Seq::new((i + 1) as nat, |k: int| Slot::Waiting));
        }
        proof {
            lemma_fresh_wf(jobs as nat, limit as nat);
        }
        Ok(Gate { limit, slots, admitted: 0, running: 0 })
    }

    /// A gate without jobs.
    pub(crate) fn idle() -> (gate: Gate)
        ensures
            gate@ == GateView::fresh(0, 1),
    {
        let gate = Gate { limit: 1, slots: Vec::new(), admitted: 0, running: 0 };
        assert(gate@.slots =~= GateView::fresh(0, 1).slots);
        gate
    }

    /// Moves this value out and leaves a gate without jobs in its place.
    fn take(&mut self) -> (gate: Gate)
        ensures
            gate == *old(self),
    {
        let mut gate = Gate::idle();
        core::mem::swap(self, &mut gate);
        gate
    }

    /// Admits the next waiting job if a permit is free, and names it.
    pub fn try_acquire(&mut self) -> (job: Option<usize>)
        ensures
            old(self)@.wf(),
            final(self)@.wf(),
            final(self)@ == apply(old(self)@, GateOp::Acquire),
            old(self)@.can_grant() ==> job == Some(old(self)@.admitted as usize),
            old(self)@.can_grant() ==> final(self)@.in_flight() == old(self)@.in_flight() + 1,
            !old(self)@.can_grant() ==> job is None,
    {
        proof {
            use_type_invariant(&*self);
        }
        if self.admitted < self.slots.len() && self.running < self.limit {
            let job: usize = self.admitted;
            proof {
                lemma_running_count_update(self.slots@, job as int, Slot::Running);
            }
            let Gate { limit, mut slots, admitted, running } = self.take();
            slots.set(job, Slot::Running);
            *self = Gate { limit, slots, admitted: admitted + 1, running: running + 1 };
            Some(job)
        } else {
            None
        }
    }

    /// Takes back the permit of a job. Answers whether the job held one;
    /// if it did not, nothing changes.
    pub fn release(&mut self, job: usize) -> (held: bool)
        ensures
            old(self)@.wf(),
            final(self)@.wf(),
            held == old(self)@.holds_permit(job as int),
            final(self)@ == apply(old(self)@, GateOp::Release(job as int)),
            held ==> final(self)@.in_flight() + 1 == old(self)@.in_flight(),
    {
        proof {
            use_type_invariant(&*self);
        }
        if job < self.slots.len() && matches!(self.slots[job], Slot::Running) {
            proof {
                lemma_running_count_update(self.slots@, job as int, Slot::Finished);
            }
            let Gate { limit, mut slots, admitted, running } = self.take();
            slots.set(job, Slot::Finished);
            *self = Gate { limit, slots, admitted, running: running - 1 };
            true
        } else {
            false
        }
    }

    /// The number of jobs that hold a permit; never above the limit.
    pub fn in_flight(&self) -> (n: usize)
        ensures
            n == self@.in_flight(),
            n <= self@.limit,
            self@.wf(),
    {
        proof {
            use_type_invariant(self);
        }
        self.running
    }

    pub fn limit(&self) -> (limit: usize)
        ensures
            limit == self@.limit,
    {
        self.limit
    }

    /// The number of jobs of the batch.
    pub fn jobs(&self) -> (jobs: usize)
        ensures
            jobs == self@.slots.len(),
    {
        self.slots.len()
    }

    /// Whether every job is done.
    pub fn is_drained(&self) -> (done: bool)
        ensures
            done == self@.drained(),
            self@.wf(),
    {
        proof {
            use_type_invariant(self);
            lemma_running_count_bounds(self.slots@);
        }
        self.admitted == self.slots.len() && self.running == 0
    }
}

} // verus!
