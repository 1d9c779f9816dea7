//! The supervisor's shutdown policy: one explicit rule applied uniformly,
//! however many sources are configured.
//!
//! A source that ends on its own is logged and lost; the remaining sources
//! keep running. The whole run stops only when cancellation is requested or
//! when every source has terminated. The caller performs the actual task
//! spawning, waiting and aborting; what is decided here is only whether the
//! run goes on.

use vstd::prelude::*;

verus! {

/// Whether the run goes on.
#[derive(Clone, Copy, Debug, PartialEq, Eq, Structural)]
pub enum RunDecision {
    Continue,
    Stop,
}

/// The supervisor's view of a run: which sources are still delivering, and
/// whether cancellation has been requested.
pub struct Supervisor {
    alive: Vec<bool>,
    cancelled: bool,
}

impl Supervisor {
    /// Which sources are still alive.
    pub closed spec fn sources(&self) -> Seq<bool> {
        self.alive@
    }

    /// Whether cancellation has been requested.
    pub closed spec fn is_cancelled(&self) -> bool {
        self.cancelled
    }

    /// The one stop rule: cancellation requested, or no source left.
    pub open spec fn spec_should_stop(&self) -> bool {
        self.is_cancelled() || !(exists|i: int| 0 <= i < self.sources().len() && self.sources()[i])
    }

    /// A fresh run: every configured source alive, no cancellation.
    pub fn new(num_sources: usize) -> (s: Supervisor)
        ensures
            s.sources().len() == num_sources,
            forall|i: int| 0 <= i < num_sources ==> s.sources()[i],
            !s.is_cancelled(),
    {
        let mut alive: Vec<bool> = Vec::new();
        let mut i: usize = 0;
        while i < num_sources
            invariant
                i <= num_sources,
                alive@.len() == i,
                forall|j: int| 0 <= j < i ==> alive@[j],
            decreases num_sources - i,
        {
            alive.push(true);
            i += 1;
        }
        Supervisor { alive, cancelled: false }
    }

    /// One source has terminated on its own. The others keep running; the
    /// decision is `Stop` exactly when none is left (or cancellation already
    /// arrived).
    pub fn on_source_terminated(&mut self, idx: usize) -> (d: RunDecision)
        requires
            idx < old(self).sources().len(),
        ensures
            final(self).sources() == old(self).sources().update(idx as int, false),
            final(self).is_cancelled() == old(self).is_cancelled(),
            d is Stop <==> final(self).spec_should_stop(),
    {
        self.alive.set(idx, false);
        self.poll()
    }

    /// Cancellation has been requested: the run stops, at once and for good.
    pub fn on_cancel(&mut self) -> (d: RunDecision)
        ensures
            final(self).sources() == old(self).sources(),
            final(self).is_cancelled(),
            d is Stop,
    {
        self.cancelled = true;
        RunDecision::Stop
    }

    /// The standing decision under the stop rule.
    pub fn poll(&self) -> (d: RunDecision)
        ensures
            d is Stop <==> self.spec_should_stop(),
    {
        if self.cancelled {
            return RunDecision::Stop;
        }
        let n = self.alive.len();
        let mut i: usize = 0;
        while i < n
            invariant
                n == self.alive@.len(),
                i <= n,
                !self.cancelled,
                forall|j: int| 0 <= j < i ==> !self.alive@[j],
            decreases n - i,
        {
            if self.alive[i] {
                assert(self.sources()[i as int]);
                return RunDecision::Continue;
            }
            i += 1;
        }
        RunDecision::Stop
    }
}

/// Cancellation dominates: a supervisor that has seen `on_cancel` stops,
/// whatever the sources' condition — and since no operation ever clears the
/// cancellation flag, no later source event can turn the decision back to
/// `Continue`.
pub proof fn lemma_cancel_dominates(s: Supervisor)
    requires
        s.is_cancelled(),
    ensures
        s.spec_should_stop(),
{
}

} // verus!
