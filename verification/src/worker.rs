//! One worker of a pool: the record that the pool keeps of a thread of
//! control that receives and executes work items until the queue closes.

use crate::model::{Outcome, Phase, WorkerView};
use vstd::prelude::*;

verus! {

/// What a worker is doing, as far as a running program can tell.
#[derive(Clone, Copy, Debug, PartialEq, Eq, Structural)]
pub enum WorkerState {
    /// Live and waiting to receive an item.
    Idle,
    /// Live and executing an item.
    Busy,
    /// Out of its loop for good.
    Terminated,
}

/// A worker's record.
pub struct Worker {
    state: WorkerState,
    joined: bool,
    last: Option<Outcome>,
    ticket: Ghost<nat>,
}

impl View for Worker {
    type V = WorkerView;

    closed spec fn view(&self) -> WorkerView {
        WorkerView {
            phase: match self.state {
                WorkerState::Idle => Phase::Idle,
                WorkerState::Busy => Phase::Busy(self.ticket@),
                WorkerState::Terminated => Phase::Terminated,
            },
            joined: self.joined,
            last: self.last,
        }
    }
}

/// The state that stands for a phase.
pub open spec fn state_of(phase: Phase) -> WorkerState {
    match phase {
        Phase::Idle => WorkerState::Idle,
        Phase::Busy(_) => WorkerState::Busy,
        Phase::Terminated => WorkerState::Terminated,
    }
}

impl Worker {
    /// A worker at the start of its loop: live, idle, not joined, with no
    /// item behind it.
    pub fn new() -> (w: Worker)
        ensures
            w@ == (WorkerView { phase: Phase::Idle, joined: false, last: None }),
    {
        Worker { state: WorkerState::Idle, joined: false, last: None, ticket: Ghost(0) }
    }

    /// What the worker is doing.
    pub fn state(&self) -> (s: WorkerState)
        ensures
            s == state_of(self@.phase),
    {
        self.state
    }

    /// Whether the worker's handle has been consumed by a join.
    pub fn is_joined(&self) -> (b: bool)
        ensures
            b == self@.joined,
    {
        self.joined
    }

    /// How the item that the worker executed last ended, if it has executed
    /// one.
    pub fn last_outcome(&self) -> (o: Option<Outcome>)
        ensures
            o == self@.last,
    {
        self.last
    }

    /// The worker takes the run with ticket `t`.
    pub(crate) fn start(&mut self, Ghost(t): Ghost<nat>)
        ensures
            final(self)@ == (WorkerView { phase: Phase::Busy(t), ..old(self)@ }),
    {
        self.state = WorkerState::Busy;
        self.ticket = Ghost(t);
    }

    /// The worker's item ended.
    pub(crate) fn finish(&mut self, outcome: Outcome)
        ensures
            final(self)@ == (WorkerView { phase: Phase::Idle, last: Some(outcome), ..old(self)@ }),
    {
        self.state = WorkerState::Idle;
        self.last = Some(outcome);
    }

    /// The worker leaves its loop.
    pub(crate) fn terminate(&mut self)
        ensures
            final(self)@ == (WorkerView { phase: Phase::Terminated, ..old(self)@ }),
    {
        self.state = WorkerState::Terminated;
    }

    /// The worker's handle is consumed.
    pub(crate) fn mark_joined(&mut self)
        ensures
            final(self)@ == (WorkerView { joined: true, ..old(self)@ }),
    {
        self.joined = true;
    }
}

} // verus!
