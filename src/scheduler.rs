//! Launch control for a batch of items run with at most `bound` in flight.
use vstd::prelude::*;

verus! {

/// Items are launched in input order; `launched - finished` are in flight.
pub struct Scheduler {
    pub bound: usize,
    pub total: usize,
    pub launched: usize,
    pub finished: usize,
}

impl Scheduler {
    pub open spec fn in_flight_spec(&self) -> int {
        self.launched - self.finished
    }

    /// The bound is positive, counts stay within the batch, and no more than
    /// `bound` items are ever in flight.
    pub open spec fn wf(&self) -> bool {
        &&& 1 <= self.bound
        &&& self.finished <= self.launched <= self.total
        &&& self.in_flight_spec() <= self.bound
    }

    /// A scheduler for `total` items, none launched yet.
    pub fn new(total: usize, bound: usize) -> (s: Scheduler)
        requires
            bound >= 1,
        ensures
            s.wf(),
            s.bound == bound && s.total == total && s.launched == 0 && s.finished == 0,
    {
        Scheduler { bound, total, launched: 0, finished: 0 }
    }

    pub fn in_flight(&self) -> (n: usize)
        requires
            self.wf(),
        ensures
            n == self.in_flight_spec(),
    {
        self.launched - self.finished
    }

    /// Index of the next item to launch, when one is left and a slot is free.
    pub fn try_launch(&mut self) -> (r: Option<usize>)
        requires
            old(self).wf(),
        ensures
            final(self).wf(),
            *final(self) == after_launch(*old(self)),
            final(self).bound == old(self).bound && final(self).total == old(self).total,
            final(self).finished == old(self).finished,
            (old(self).launched < old(self).total && old(self).in_flight_spec() < old(self).bound)
                ==> r == Some(old(self).launched) && final(self).launched == old(self).launched + 1,
            !(old(self).launched < old(self).total && old(self).in_flight_spec() < old(self).bound)
                ==> r is None && final(self).launched == old(self).launched,
    {
        if self.launched < self.total && self.launched - self.finished < self.bound {
            let i = self.launched;
            self.launched = self.launched + 1;
            Some(i)
        } else {
            None
        }
    }

    /// Records that one item in flight has reached its terminal state.
    pub fn complete(&mut self)
        requires
            old(self).wf(),
            old(self).in_flight_spec() > 0,
        ensures
            final(self).wf(),
            *final(self) == after_complete(*old(self)),
            final(self).finished == old(self).finished + 1,
            final(self).launched == old(self).launched,
            final(self).bound == old(self).bound && final(self).total == old(self).total,
    {
        self.finished = self.finished + 1;
    }

    /// Whether every item has reached its terminal state.
    pub fn is_done(&self) -> (r: bool)
        requires
            self.wf(),
        ensures
            r == (self.finished == self.total),
    {
        self.finished == self.total
    }
}

/// The scheduler after one launch attempt.
pub open spec fn after_launch(s: Scheduler) -> Scheduler {
    if s.launched < s.total && s.in_flight_spec() < s.bound {
        Scheduler { launched: (s.launched + 1) as usize, ..s }
    } else {
        s
    }
}

/// The scheduler after a run in flight finished (none when nothing is in flight).
pub open spec fn after_complete(s: Scheduler) -> Scheduler {
    if s.in_flight_spec() > 0 {
        Scheduler { finished: (s.finished + 1) as usize, ..s }
    } else {
        s
    }
}

/// The scheduler after a series of launch attempts (`true`) and completions
/// (`false`), in order.
pub open spec fn apply(s: Scheduler, ops: Seq<bool>) -> Scheduler
    decreases ops.len(),
{
    if ops.len() == 0 {
        s
    } else {
        apply(if ops[0] { after_launch(s) } else { after_complete(s) }, ops.drop_first())
    }
}

/// From a fresh scheduler with bound `bound`, whatever launch attempts and
/// completions follow, no more than `bound` runs are ever in flight at once,
/// and no more are launched than the batch holds.
pub proof fn lemma_bound_never_exceeded(total: usize, bound: usize, ops: Seq<bool>)
    requires
        bound >= 1,
    ensures
        apply(Scheduler { bound, total, launched: 0, finished: 0 }, ops).wf(),
        0 <= apply(Scheduler { bound, total, launched: 0, finished: 0 }, ops).in_flight_spec() <= bound,
        apply(Scheduler { bound, total, launched: 0, finished: 0 }, ops).launched <= total,
{
    lemma_apply_keeps_wf(Scheduler { bound, total, launched: 0, finished: 0 }, ops);
}

proof fn lemma_apply_keeps_wf(s: Scheduler, ops: Seq<bool>)
    requires
        s.wf(),
    ensures
        apply(s, ops).wf(),
        apply(s, ops).bound == s.bound && apply(s, ops).total == s.total,
    decreases ops.len(),
{
    if ops.len() > 0 {
        let n = if ops[0] { after_launch(s) } else { after_complete(s) };
        lemma_apply_keeps_wf(n, ops.drop_first());
    }
}

} // verus!
