//! The worker pool: a fixed set of workers that share one job queue.
//!
//! The pool decides; it does not spawn, block or run anything itself. The
//! code that owns the threads reports what happens (a submission, a worker
//! asking for work, the end of an item, the start of a teardown, a join that
//! returned) and acts on what the pool answers.

use crate::model::{Lifecycle, Outcome, Phase, PoolState, Receive, Run, WorkerView};
use crate::queue::{JobQueue, RecvError};
use crate::worker::{state_of, Worker, WorkerState};
use vstd::prelude::*;

verus! {

/// A pool of a fixed number of workers over items of type `T`.
pub struct ThreadPool<T> {
    workers: Vec<Worker>,
    queue: JobQueue<T>,
    submitted: Ghost<Seq<T>>,
    runs: Ghost<Seq<Run>>,
}

impl<T> View for ThreadPool<T> {
    type V = PoolState<T>;

    closed spec fn view(&self) -> PoolState<T> {
        PoolState {
            submitted: self.submitted@,
            runs: self.runs@,
            open: self.queue.is_open(),
            workers: Seq::new(self.workers@.len(), |i: int| self.workers@[i]@),
        }
    }
}

impl<T> ThreadPool<T> {
    /// Whether the queue holds exactly the accepted items that no worker has
    /// taken yet.
    pub closed spec fn queue_agrees(&self) -> bool {
        self.queue@ == self@.queue()
    }

    /// Well-formedness: the pool is in a state that a pool can reach, and its
    /// queue agrees with that state. `new` establishes it and every operation
    /// keeps it.
    pub open spec fn wf(&self) -> bool {
        &&& self@.inv()
        &&& self.queue_agrees()
    }

    /// A pool of `size` workers, all of them live and idle, with its queue
    /// open and empty.
    pub fn new(size: usize) -> (pool: ThreadPool<T>)
        requires
            size > 0,
        ensures
            pool.wf(),
            pool@ == PoolState::<T>::init(size as nat),
    {
        let queue = JobQueue::open();
        let mut workers: Vec<Worker> = Vec::new();
        let mut id: usize = 0;
        while id < size
            invariant
                id <= size,
                workers@.len() == id,
                forall|i: int|
                    0 <= i < id ==> (#[trigger] workers@[i])@ == (WorkerView {
                        phase: Phase::Idle,
                        joined: false,
                        last: None,
                    }),
            decreases size - id,
        {
            workers.push(Worker::new());
            id += 1;
        }
        let pool = ThreadPool {
            workers,
            queue,
            submitted: Ghost(Seq::empty()),
            runs: Ghost(Seq::empty()),
        };
        proof {
            crate::safety::lemma_init_inv::<T>(size as nat);
        }
        assert(pool@.workers =~= PoolState::<T>::init(size as nat).workers);
        assert(pool@.queue() =~= Seq::<T>::empty());
        pool
    }

    /// Submits `item`: it goes to the end of the queue, and whichever worker
    /// asks next once the items before it are taken will execute it. The call
    /// neither waits for the execution nor reports it.
    pub fn execute(&mut self, item: T)
        requires
            old(self).wf(),
            old(self)@.open,
        ensures
            final(self).wf(),
            final(self)@ == old(self)@.execute(item),
    {
        proof {
            crate::safety::lemma_execute_inv(self@, item);
        }
        let _ = self.queue.send(item);
        proof {
            self.submitted@ = self.submitted@.push(item);
        }
        assert(self@.queue() =~= self.queue@);
        assert(self@.workers =~= old(self)@.workers);
    }

    /// Worker `worker` asks for its next item. An idle worker gets the oldest
    /// queued item and is busy from then on; with nothing queued it is told
    /// to wait while the queue is open, and terminates once it is closed.
    /// A caller that is no idle worker of the pool gets nothing and changes
    /// nothing.
    pub fn receive(&mut self, worker: usize) -> (r: Receive<T>)
        requires
            old(self).wf(),
        ensures
            final(self).wf(),
            final(self)@ == old(self)@.receive(worker as nat),
            r == old(self)@.received(worker as nat),
    {
        if worker >= self.workers.len() {
            return Receive::NotIdle;
        }
        match self.workers[worker].state() {
            WorkerState::Idle => {},
            _ => {
                return Receive::NotIdle;
            },
        }
        proof {
            crate::safety::lemma_receive_inv(self@, worker as nat);
        }
        match self.queue.recv() {
            Ok(item) => {
                self.workers[worker].start(Ghost(self.runs@.len()));
                proof {
                    self.runs@ = self.runs@.push(Run { worker: worker as nat, outcome: None });
                }
                assert(self@.workers =~= old(self)@.receive(worker as nat).workers);
                assert(self@.queue() =~= self.queue@);
                Receive::Job(item)
            },
            Err(RecvError::Empty) => {
                assert(old(self)@.queue().len() == 0);
                Receive::Wait
            },
            Err(RecvError::Closed) => {
                assert(old(self)@.queue().len() == 0);
                self.workers[worker].terminate();
                assert(self@.workers =~= old(self)@.receive(worker as nat).workers);
                Receive::Closed
            },
        }
    }

    /// Worker `worker` reports that the item it was executing ended with
    /// `outcome`. A fault is contained: whatever the outcome, the worker is
    /// idle again and asks for its next item. The result says whether the
    /// worker was busy; if it was not, nothing changes.
    pub fn complete(&mut self, worker: usize, outcome: Outcome) -> (was_busy: bool)
        requires
            old(self).wf(),
        ensures
            final(self).wf(),
            final(self)@ == old(self)@.complete(worker as nat, outcome),
            was_busy == old(self)@.is_busy(worker as nat),
    {
        if worker >= self.workers.len() {
            return false;
        }
        match self.workers[worker].state() {
            WorkerState::Busy => {},
            _ => {
                return false;
            },
        }
        proof {
            crate::safety::lemma_complete_inv(self@, worker as nat, outcome);
            assert(self@.worker_ok(worker as int));
        }
        let ghost ticket = self@.workers[worker as int].phase->Busy_0;
        self.workers[worker].finish(outcome);
        proof {
            self.runs@ = self.runs@.update(
                ticket as int,
                Run { worker: worker as nat, outcome: Some(outcome) },
            );
        }
        assert(self@.workers =~= old(self)@.complete(worker as nat, outcome).workers);
        assert(self@.queue() =~= self.queue@);
        true
    }

    /// Starts the teardown: the sending side of the queue is dropped, so the
    /// queue takes no further item. What is queued is still handed out.
    /// A second call changes nothing.
    pub fn shutdown(&mut self)
        requires
            old(self).wf(),
        ensures
            final(self).wf(),
            final(self)@ == old(self)@.shutdown(),
    {
        proof {
            crate::safety::lemma_shutdown_inv(self@);
        }
        self.queue.close();
        assert(self@.workers =~= old(self)@.workers);
    }

    /// The worker that a teardown joins next: the lowest one whose handle
    /// has not been consumed. `None` once every worker has been joined.
    pub fn next_join(&self) -> (next: Option<usize>)
        ensures
            match next {
                Some(w) => self@.is_next_join(w as nat),
                None => self@.all_joined(),
            },
    {
        let mut i: usize = 0;
        while i < self.workers.len()
            invariant
                i <= self.workers.len(),
                forall|v: int| 0 <= v < i ==> (#[trigger] self@.workers[v]).joined,
            decreases self.workers.len() - i,
        {
            if !self.workers[i].is_joined() {
                return Some(i);
            }
            i += 1;
        }
        None
    }

    /// The join of worker `worker` returned: its handle is consumed. The
    /// result says whether there was a terminated worker with a handle to
    /// consume; if not (no such worker, a live one, or one joined before)
    /// nothing changes.
    pub fn join(&mut self, worker: usize) -> (joined: bool)
        requires
            old(self).wf(),
        ensures
            final(self).wf(),
            final(self)@ == old(self)@.join(worker as nat),
            joined == old(self)@.can_join(worker as nat),
    {
        if worker >= self.workers.len() {
            return false;
        }
        match self.workers[worker].state() {
            WorkerState::Terminated => {},
            _ => {
                return false;
            },
        }
        if self.workers[worker].is_joined() {
            return false;
        }
        proof {
            crate::safety::lemma_join_inv(self@, worker as nat);
        }
        self.workers[worker].mark_joined();
        assert(self@.workers =~= old(self)@.join(worker as nat).workers);
        assert(self@.queue() =~= self.queue@);
        true
    }

    /// The number of workers, fixed when the pool was made.
    pub fn size(&self) -> (n: usize)
        ensures
            n == self@.size(),
    {
        self.workers.len()
    }

    /// The number of items that wait for a worker.
    pub fn queued(&self) -> (n: usize)
        requires
            self.wf(),
        ensures
            n == self@.queue().len(),
    {
        self.queue.len()
    }

    /// Whether the pool accepts submissions.
    pub fn is_accepting(&self) -> (b: bool)
        ensures
            b == self@.open,
    {
        self.queue.accepts()
    }

    /// The stage of the pool's life.
    pub fn lifecycle(&self) -> (l: Lifecycle)
        ensures
            l == self@.lifecycle(),
    {
        if self.queue.accepts() {
            Lifecycle::Accepting
        } else {
            match self.next_join() {
                Some(w) => {
                    assert(!self@.workers[w as int].joined);
                    Lifecycle::ShuttingDown
                },
                None => Lifecycle::Terminated,
            }
        }
    }

    /// What worker `worker` is doing; `None` if the pool has no such worker.
    pub fn worker_state(&self, worker: usize) -> (s: Option<WorkerState>)
        ensures
            worker < self@.size() ==> s == Some(state_of(self@.workers[worker as int].phase)),
            worker >= self@.size() ==> s.is_none(),
    {
        if worker < self.workers.len() {
            Some(self.workers[worker].state())
        } else {
            None
        }
    }

    /// How the item that worker `worker` executed last ended; `None` if it
    /// has executed none or the pool has no such worker.
    pub fn last_outcome(&self, worker: usize) -> (o: Option<Outcome>)
        ensures
            worker < self@.size() ==> o == self@.workers[worker as int].last,
            worker >= self@.size() ==> o.is_none(),
    {
        if worker < self.workers.len() {
            self.workers[worker].last_outcome()
        } else {
            None
        }
    }

    /// The number of workers that execute an item now.
    pub fn running(&self) -> (n: usize)
        ensures
            n == self@.running(),
    {
        let mut n: usize = 0;
        let mut i: usize = 0;
        while i < self.workers.len()
            invariant
                i <= self.workers.len(),
                n <= i,
                n == self@.busy_below(i as nat),
            decreases self.workers.len() - i,
        {
            match self.workers[i].state() {
                WorkerState::Busy => {
                    n += 1;
                },
                _ => {},
            }
            i += 1;
        }
        n
    }

    /// The number of live workers: those that have not terminated.
    pub fn live(&self) -> (n: usize)
        ensures
            n == self@.live(),
    {
        let mut n: usize = 0;
        let mut i: usize = 0;
        while i < self.workers.len()
            invariant
                i <= self.workers.len(),
                n <= i,
                n == self@.live_below(i as nat),
            decreases self.workers.len() - i,
        {
            match self.workers[i].state() {
                WorkerState::Terminated => {},
                _ => {
                    n += 1;
                },
            }
            i += 1;
        }
        n
    }
}

} // verus!
