//! The mathematical model of a worker pool.
//!
//! A pool is described by the items it has accepted, the runs it has handed
//! to its workers, the state of its queue and the state of each worker. Every
//! operation of the executable pool is a transition of this model, and the
//! properties of the pool are stated and proved over it.

use vstd::prelude::*;

verus! {

/// How the execution of a work item ended.
#[derive(Clone, Copy, Debug, PartialEq, Eq, Structural)]
pub enum Outcome {
    /// The item ran to completion.
    Finished,
    /// The item raised a fault, which was contained by the worker.
    Faulted,
}

/// What a worker is doing.
pub enum Phase {
    /// Live and waiting to receive an item.
    Idle,
    /// Live and executing the run with the given ticket.
    Busy(nat),
    /// The worker saw the queue closed and drained, and left its loop.
    Terminated,
}

/// One worker as the model sees it.
pub struct WorkerView {
    /// What the worker is doing.
    pub phase: Phase,
    /// Whether the worker's thread handle has been consumed by a join.
    pub joined: bool,
    /// How the item that the worker executed last ended.
    pub last: Option<Outcome>,
}

/// One hand-over of an item to a worker. Runs are numbered in the order in
/// which they are made, and that number is the run's ticket: the run with
/// ticket `t` executes the item `submitted[t]`.
pub struct Run {
    /// The worker that took the item.
    pub worker: nat,
    /// `None` while the item is executing.
    pub outcome: Option<Outcome>,
}

/// The stage of a pool's life.
#[derive(Clone, Copy, Debug, PartialEq, Eq, Structural)]
pub enum Lifecycle {
    /// The queue is open and submissions are accepted.
    Accepting,
    /// The queue is closed and some worker has not been joined yet.
    ShuttingDown,
    /// The queue is closed and every worker has been joined.
    Terminated,
}

/// What a worker is told when it asks for its next item.
#[derive(Debug, PartialEq, Eq)]
pub enum Receive<T> {
    /// The oldest queued item, which the worker now owns and executes.
    Job(T),
    /// Nothing is queued and the queue is open: the worker waits.
    Wait,
    /// Nothing is queued and the queue is closed: the worker terminates.
    Closed,
    /// The caller is no idle worker of this pool: nothing happened.
    NotIdle,
}

/// Something that happens to a pool.
pub enum Event<T> {
    /// A submitter hands in an item.
    Execute(T),
    /// A worker asks for its next item.
    Receive(nat),
    /// A worker reports that its item ended.
    Complete(nat, Outcome),
    /// The owner drops the sending side of the queue.
    Shutdown,
    /// The owner's join of a worker returns.
    Join(nat),
}

/// The state of a pool.
pub struct PoolState<T> {
    /// Every item accepted so far, in the order of submission.
    pub submitted: Seq<T>,
    /// Every hand-over so far, in the order in which they happened.
    pub runs: Seq<Run>,
    /// Whether the queue accepts submissions.
    pub open: bool,
    /// The workers, in the order in which a teardown joins them.
    pub workers: Seq<WorkerView>,
}

impl<T> PoolState<T> {
    /// A fresh pool of `size` workers: all of them live and idle, the queue
    /// open and empty.
    pub open spec fn init(size: nat) -> Self {
        PoolState {
            submitted: Seq::empty(),
            runs: Seq::empty(),
            open: true,
            workers: Seq::new(
                size,
                |i: int| WorkerView { phase: Phase::Idle, joined: false, last: None },
            ),
        }
    }

    /// The number of workers.
    pub open spec fn size(self) -> nat {
        self.workers.len()
    }

    /// The items that wait for a worker, oldest first.
    pub open spec fn queue(self) -> Seq<T> {
        self.submitted.skip(self.runs.len() as int)
    }

    /// Whether `w` is a worker of the pool that waits for an item.
    pub open spec fn is_idle(self, w: nat) -> bool {
        w < self.workers.len() && self.workers[w as int].phase == Phase::Idle
    }

    /// Whether `w` is a worker of the pool that executes an item.
    pub open spec fn is_busy(self, w: nat) -> bool {
        w < self.workers.len() && self.workers[w as int].phase is Busy
    }

    /// Whether `w` is a worker of the pool that has left its loop.
    pub open spec fn is_terminated(self, w: nat) -> bool {
        w < self.workers.len() && self.workers[w as int].phase == Phase::Terminated
    }

    /// A worker is live from its creation until it terminates.
    pub open spec fn is_live(self, w: nat) -> bool {
        self.is_idle(w) || self.is_busy(w)
    }

    /// Whether the item with ticket `t` has been executed to its end.
    pub open spec fn is_done(self, t: int) -> bool {
        0 <= t < self.runs.len() && self.runs[t].outcome is Some
    }

    /// Whether the item with ticket `t` is executing now.
    pub open spec fn is_running(self, t: int) -> bool {
        0 <= t < self.runs.len() && self.runs[t].outcome is None
    }

    /// Whether the item with ticket `t` still waits in the queue.
    pub open spec fn is_queued(self, t: int) -> bool {
        self.runs.len() <= t < self.submitted.len()
    }

    /// The number of busy workers among the first `n`.
    pub open spec fn busy_below(self, n: nat) -> nat
        decreases n,
    {
        if n == 0 {
            0
        } else {
            self.busy_below((n - 1) as nat) + if self.is_busy((n - 1) as nat) {
                1nat
            } else {
                0nat
            }
        }
    }

    /// The number of workers that execute an item now.
    pub open spec fn running(self) -> nat {
        self.busy_below(self.workers.len())
    }

    /// The number of live workers among the first `n`.
    pub open spec fn live_below(self, n: nat) -> nat
        decreases n,
    {
        if n == 0 {
            0
        } else {
            self.live_below((n - 1) as nat) + if self.is_live((n - 1) as nat) {
                1nat
            } else {
                0nat
            }
        }
    }

    /// The number of live workers.
    pub open spec fn live(self) -> nat {
        self.live_below(self.workers.len())
    }

    /// The tickets of the items that execute now.
    pub open spec fn executing(self) -> Set<int> {
        Set::new(|t: int| self.is_running(t))
    }

    /// Whether the handle of every worker has been consumed.
    pub open spec fn all_joined(self) -> bool {
        forall|w: int| 0 <= w < self.workers.len() ==> (#[trigger] self.workers[w]).joined
    }

    /// The stage of the pool's life. A pool is made accepting; the teardown
    /// begins when the queue is closed and is over when every worker has
    /// been joined.
    pub open spec fn lifecycle(self) -> Lifecycle {
        if self.open {
            Lifecycle::Accepting
        } else if self.all_joined() {
            Lifecycle::Terminated
        } else {
            Lifecycle::ShuttingDown
        }
    }

    /// Whether `w` is the lowest worker whose handle has not been consumed:
    /// the one that a teardown joins next.
    pub open spec fn is_next_join(self, w: nat) -> bool {
        &&& w < self.workers.len()
        &&& !self.workers[w as int].joined
        &&& forall|v: int| 0 <= v < w ==> (#[trigger] self.workers[v]).joined
    }

    /// A submission: an open queue takes the item at its end, a closed one
    /// takes nothing.
    pub open spec fn execute(self, item: T) -> Self {
        if self.open {
            PoolState { submitted: self.submitted.push(item), ..self }
        } else {
            self
        }
    }

    /// Worker `w` asks for its next item.
    pub open spec fn receive(self, w: nat) -> Self {
        if !self.is_idle(w) {
            self
        } else if self.runs.len() < self.submitted.len() {
            PoolState {
                runs: self.runs.push(Run { worker: w, outcome: None }),
                workers: self.workers.update(
                    w as int,
                    WorkerView { phase: Phase::Busy(self.runs.len()), ..self.workers[w as int] },
                ),
                ..self
            }
        } else if self.open {
            self
        } else {
            PoolState {
                workers: self.workers.update(
                    w as int,
                    WorkerView { phase: Phase::Terminated, ..self.workers[w as int] },
                ),
                ..self
            }
        }
    }

    /// What worker `w` is told when it asks for its next item.
    pub open spec fn received(self, w: nat) -> Receive<T> {
        if !self.is_idle(w) {
            Receive::NotIdle
        } else if self.runs.len() < self.submitted.len() {
            Receive::Job(self.submitted[self.runs.len() as int])
        } else if self.open {
            Receive::Wait
        } else {
            Receive::Closed
        }
    }

    /// Worker `w` reports that the item it was executing ended. Whatever the
    /// outcome, the worker is idle again.
    pub open spec fn complete(self, w: nat, outcome: Outcome) -> Self {
        if w < self.workers.len() {
            match self.workers[w as int].phase {
                Phase::Busy(t) if t < self.runs.len() => PoolState {
                    runs: self.runs.update(t as int, Run { worker: w, outcome: Some(outcome) }),
                    workers: self.workers.update(
                        w as int,
                        WorkerView {
                            phase: Phase::Idle,
                            last: Some(outcome),
                            ..self.workers[w as int]
                        },
                    ),
                    ..self
                },
                _ => self,
            }
        } else {
            self
        }
    }

    /// The sending side of the queue is dropped.
    pub open spec fn shutdown(self) -> Self {
        PoolState { open: false, ..self }
    }

    /// Whether a join of worker `w` can return now and has a handle to
    /// consume.
    pub open spec fn can_join(self, w: nat) -> bool {
        self.is_terminated(w) && !self.workers[w as int].joined
    }

    /// The join of worker `w` returns.
    pub open spec fn join(self, w: nat) -> Self {
        if self.can_join(w) {
            PoolState {
                workers: self.workers.update(
                    w as int,
                    WorkerView { joined: true, ..self.workers[w as int] },
                ),
                ..self
            }
        } else {
            self
        }
    }

    /// The state after one event.
    pub open spec fn step(self, event: Event<T>) -> Self {
        match event {
            Event::Execute(item) => self.execute(item),
            Event::Receive(w) => self.receive(w),
            Event::Complete(w, outcome) => self.complete(w, outcome),
            Event::Shutdown => self.shutdown(),
            Event::Join(w) => self.join(w),
        }
    }

    /// The state after a sequence of events, taken from the first to the last.
    pub open spec fn run(self, events: Seq<Event<T>>) -> Self
        decreases events.len(),
    {
        if events.len() == 0 {
            self
        } else {
            self.run(events.drop_last()).step(events.last())
        }
    }

    /// The run with ticket `t` belongs to a worker of the pool, and while it
    /// executes that worker is busy with it.
    pub open spec fn run_ok(self, t: int) -> bool {
        &&& self.runs[t].worker < self.workers.len()
        &&& self.runs[t].outcome is None ==> self.workers[self.runs[t].worker as int].phase
            == Phase::Busy(t as nat)
    }

    /// A busy worker holds a run of its own that has not ended, a terminated
    /// one has seen the queue closed and drained, and only a terminated one
    /// has been joined.
    pub open spec fn worker_ok(self, w: int) -> bool {
        &&& match self.workers[w].phase {
            Phase::Idle => true,
            Phase::Busy(t) => t < self.runs.len() && self.runs[t as int] == (Run {
                worker: w as nat,
                outcome: None,
            }),
            Phase::Terminated => !self.open && self.runs.len() == self.submitted.len(),
        }
        &&& self.workers[w].joined ==> self.workers[w].phase == Phase::Terminated
    }

    /// What holds of every state that a pool can reach.
    pub open spec fn inv(self) -> bool {
        &&& self.workers.len() > 0
        &&& self.runs.len() <= self.submitted.len()
        &&& forall|t: int| 0 <= t < self.runs.len() ==> #[trigger] self.run_ok(t)
        &&& forall|w: int| 0 <= w < self.workers.len() ==> #[trigger] self.worker_ok(w)
    }
}

} // verus!
