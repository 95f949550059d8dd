//! The invariant of the pool's model is kept: a fresh pool satisfies it, and
//! no event, nor any sequence of events, breaks it. With it come the facts
//! about sequences of events that the other proofs build on.

use crate::model::{Event, Outcome, PoolState};
use vstd::prelude::*;

verus! {

/// A fresh pool is in a good state.
pub proof fn lemma_init_inv<T>(size: nat)
    requires
        size > 0,
    ensures
        PoolState::<T>::init(size).inv(),
{
    let s = PoolState::<T>::init(size);
    assert forall|w: int| 0 <= w < s.workers.len() implies #[trigger] s.worker_ok(w) by {}
}

/// A submission keeps a good state good.
pub proof fn lemma_execute_inv<T>(s: PoolState<T>, item: T)
    requires
        s.inv(),
    ensures
        s.execute(item).inv(),
{
    let n = s.execute(item);
    assert forall|t: int| 0 <= t < n.runs.len() implies #[trigger] n.run_ok(t) by {
        assert(s.run_ok(t));
    }
    assert forall|w: int| 0 <= w < n.workers.len() implies #[trigger] n.worker_ok(w) by {
        assert(s.worker_ok(w));
    }
}

/// A worker's request for work keeps a good state good.
pub proof fn lemma_receive_inv<T>(s: PoolState<T>, w: nat)
    requires
        s.inv(),
    ensures
        s.receive(w).inv(),
{
    let n = s.receive(w);
    assert forall|t: int| 0 <= t < n.runs.len() implies #[trigger] n.run_ok(t) by {
        if t < s.runs.len() {
            assert(s.run_ok(t));
            assert(s.worker_ok(s.runs[t].worker as int));
        }
    }
    assert forall|v: int| 0 <= v < n.workers.len() implies #[trigger] n.worker_ok(v) by {
        assert(s.worker_ok(v));
    }
}

/// The end of an item keeps a good state good.
pub proof fn lemma_complete_inv<T>(s: PoolState<T>, w: nat, outcome: Outcome)
    requires
        s.inv(),
    ensures
        s.complete(w, outcome).inv(),
{
    let n = s.complete(w, outcome);
    if s.is_busy(w) {
        assert(s.worker_ok(w as int));
        let held = s.workers[w as int].phase->Busy_0;
        assert forall|t: int| 0 <= t < n.runs.len() implies #[trigger] n.run_ok(t) by {
            assert(s.run_ok(t));
            if t != held && s.runs[t].outcome is None {
                assert(s.worker_ok(s.runs[t].worker as int));
            }
        }
        assert forall|v: int| 0 <= v < n.workers.len() implies #[trigger] n.worker_ok(v) by {
            assert(s.worker_ok(v));
        }
    }
}

/// Closing the queue keeps a good state good.
pub proof fn lemma_shutdown_inv<T>(s: PoolState<T>)
    requires
        s.inv(),
    ensures
        s.shutdown().inv(),
{
    let n = s.shutdown();
    assert forall|t: int| 0 <= t < n.runs.len() implies #[trigger] n.run_ok(t) by {
        assert(s.run_ok(t));
    }
    assert forall|w: int| 0 <= w < n.workers.len() implies #[trigger] n.worker_ok(w) by {
        assert(s.worker_ok(w));
    }
}

/// A join keeps a good state good.
pub proof fn lemma_join_inv<T>(s: PoolState<T>, w: nat)
    requires
        s.inv(),
    ensures
        s.join(w).inv(),
{
    let n = s.join(w);
    assert forall|t: int| 0 <= t < n.runs.len() implies #[trigger] n.run_ok(t) by {
        assert(s.run_ok(t));
    }
    assert forall|v: int| 0 <= v < n.workers.len() implies #[trigger] n.worker_ok(v) by {
        assert(s.worker_ok(v));
    }
}

/// Every event keeps a good state good.
pub proof fn lemma_step_inv<T>(s: PoolState<T>, event: Event<T>)
    requires
        s.inv(),
    ensures
        s.step(event).inv(),
{
    match event {
        Event::Execute(item) => lemma_execute_inv(s, item),
        Event::Receive(w) => lemma_receive_inv(s, w),
        Event::Complete(w, outcome) => lemma_complete_inv(s, w, outcome),
        Event::Shutdown => lemma_shutdown_inv(s),
        Event::Join(w) => lemma_join_inv(s, w),
    }
}

/// Whatever happens to a pool, in whatever order, a good state stays good.
pub proof fn lemma_run_inv<T>(s: PoolState<T>, events: Seq<Event<T>>)
    requires
        s.inv(),
    ensures
        s.run(events).inv(),
    decreases events.len(),
{
    if events.len() > 0 {
        lemma_run_inv(s, events.drop_last());
        lemma_step_inv(s.run(events.drop_last()), events.last());
    }
}

/// Whatever happens to a pool of `size` workers from its creation on, it
/// keeps its `size` workers and stays in a good state.
pub proof fn lemma_always_inv<T>(size: nat, events: Seq<Event<T>>)
    requires
        size > 0,
    ensures
        PoolState::<T>::init(size).run(events).inv(),
        PoolState::<T>::init(size).run(events).size() == size,
{
    lemma_init_inv::<T>(size);
    lemma_run_inv(PoolState::<T>::init(size), events);
    lemma_run_keeps_history(PoolState::<T>::init(size), events);
}

/// No event rewrites the past: the accepted items stay, in their order; a
/// run stays with its worker; and a run that has ended keeps its outcome.
pub proof fn lemma_step_keeps_history<T>(s: PoolState<T>, event: Event<T>)
    requires
        s.inv(),
    ensures
        s.submitted.is_prefix_of(s.step(event).submitted),
        s.runs.len() <= s.step(event).runs.len(),
        s.step(event).workers.len() == s.workers.len(),
        forall|t: int|
            0 <= t < s.runs.len() ==> (#[trigger] s.step(event).runs[t]).worker
                == s.runs[t].worker,
        forall|t: int| #[trigger] s.is_done(t) ==> s.step(event).runs[t] == s.runs[t],
{
    let n = s.step(event);
    match event {
        Event::Complete(w, outcome) => {
            if w < s.workers.len() {
                assert(s.worker_ok(w as int));
            }
        },
        _ => {},
    }
}

/// The same over any sequence of events: what was accepted, handed over or
/// done before is so afterwards, unchanged.
pub proof fn lemma_run_keeps_history<T>(s: PoolState<T>, events: Seq<Event<T>>)
    requires
        s.inv(),
    ensures
        s.submitted.is_prefix_of(s.run(events).submitted),
        s.runs.len() <= s.run(events).runs.len(),
        s.run(events).workers.len() == s.workers.len(),
        forall|t: int|
            0 <= t < s.runs.len() ==> (#[trigger] s.run(events).runs[t]).worker
                == s.runs[t].worker,
        forall|t: int| #[trigger] s.is_done(t) ==> s.run(events).runs[t] == s.runs[t],
    decreases events.len(),
{
    if events.len() > 0 {
        let m = s.run(events.drop_last());
        lemma_run_keeps_history(s, events.drop_last());
        lemma_run_inv(s, events.drop_last());
        lemma_step_keeps_history(m, events.last());
        assert forall|t: int| #[trigger] s.is_done(t) implies s.run(events).runs[t]
            == s.runs[t] by {
            assert(m.is_done(t));
        }
    }
}

/// Running one sequence of events after another is running the two in one.
pub proof fn lemma_run_concat<T>(s: PoolState<T>, a: Seq<Event<T>>, b: Seq<Event<T>>)
    ensures
        s.run(a + b) == s.run(a).run(b),
    decreases b.len(),
{
    if b.len() == 0 {
        assert(a + b =~= a);
    } else {
        lemma_run_concat(s, a, b.drop_last());
        assert((a + b).drop_last() =~= a + b.drop_last());
        assert((a + b).last() == b.last());
    }
}

/// Running a single event is taking that step.
pub proof fn lemma_run_one<T>(s: PoolState<T>, event: Event<T>)
    ensures
        s.run(seq![event]) == s.step(event),
{
    let one = seq![event];
    assert(one.drop_last() =~= Seq::<Event<T>>::empty());
    assert(s.run(one.drop_last()) == s);
}

} // verus!
