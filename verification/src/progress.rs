//! No item gets stuck: from wherever a pool stands, a finite course of
//! events brings every accepted item to its end and the teardown to its
//! close.

use crate::safety::{lemma_always_inv, lemma_run_concat, lemma_run_one, lemma_step_inv};
use crate::laws::lemma_terminated_all_done;
use crate::model::{Event, Lifecycle, Outcome, PoolState};
use vstd::prelude::*;

verus! {

/// No worker is busy.
spec fn settled<T>(s: PoolState<T>) -> bool {
    forall|w: nat| w < s.workers.len() ==> !#[trigger] s.is_busy(w)
}

/// The busy workers among the first `n` bring their items to an end.
proof fn lemma_settle<T>(s: PoolState<T>, n: nat) -> (events: Seq<Event<T>>)
    requires
        s.inv(),
        n <= s.workers.len(),
    ensures
        s.run(events).inv(),
        s.run(events).submitted == s.submitted,
        s.run(events).open == s.open,
        s.run(events).runs.len() == s.runs.len(),
        s.run(events).workers.len() == s.workers.len(),
        forall|w: nat| w < n ==> !#[trigger] s.run(events).is_busy(w),
        forall|w: int|
            n <= w < s.workers.len() ==> #[trigger] s.run(events).workers[w] == s.workers[w],
    decreases n,
{
    if n == 0 {
        Seq::empty()
    } else {
        let w = (n - 1) as nat;
        let before = lemma_settle(s, w);
        let m = s.run(before);
        if m.is_busy(w) {
            let event = Event::Complete(w, Outcome::Finished);
            let events = before.push(event);
            assert(events.drop_last() =~= before);
            lemma_step_inv(m, event);
            assert(m.worker_ok(w as int));
            let r = m.step(event);
            assert forall|v: nat| v < n implies !#[trigger] r.is_busy(v) by {
                if v < w {
                    assert(!m.is_busy(v));
                }
            }
            events
        } else {
            assert forall|v: nat| v < n implies !#[trigger] m.is_busy(v) by {
                if v < w {
                    assert(!m.is_busy(v));
                }
            }
            before
        }
    }
}

/// With no worker busy, the first worker takes the queued items one by one
/// and brings each to its end.
proof fn lemma_drain<T>(s: PoolState<T>) -> (events: Seq<Event<T>>)
    requires
        s.inv(),
        settled(s),
    ensures
        s.run(events).inv(),
        settled(s.run(events)),
        s.run(events).submitted == s.submitted,
        s.run(events).open == s.open,
        s.run(events).runs.len() == s.submitted.len(),
        s.run(events).workers.len() == s.workers.len(),
    decreases s.submitted.len() - s.runs.len(),
{
    if s.runs.len() >= s.submitted.len() {
        Seq::empty()
    } else {
        assert(s.worker_ok(0));
        assert(!s.is_busy(0));
        assert(s.is_idle(0));
        let take = Event::Receive(0);
        let end = Event::Complete(0, Outcome::Finished);
        let m1 = s.step(take);
        lemma_step_inv(s, take);
        let m2 = m1.step(end);
        lemma_step_inv(m1, end);
        assert(settled(m2)) by {
            assert forall|w: nat| w < m2.workers.len() implies !#[trigger] m2.is_busy(w) by {
                assert(!s.is_busy(w));
            }
        }
        let rest = lemma_drain(m2);
        let first = seq![take, end];
        assert(first.drop_last() =~= seq![take]);
        lemma_run_one(s, take);
        assert(s.run(first) == m2);
        lemma_run_concat(s, first, rest);
        first + rest
    }
}

/// With the queue closed and drained and no worker busy, the first `n`
/// workers ask for work, see the closure and terminate.
proof fn lemma_retire<T>(s: PoolState<T>, n: nat) -> (events: Seq<Event<T>>)
    requires
        s.inv(),
        settled(s),
        !s.open,
        s.runs.len() == s.submitted.len(),
        n <= s.workers.len(),
    ensures
        s.run(events).inv(),
        settled(s.run(events)),
        s.run(events).submitted == s.submitted,
        !s.run(events).open,
        s.run(events).runs.len() == s.submitted.len(),
        s.run(events).workers.len() == s.workers.len(),
        forall|w: nat| w < n ==> #[trigger] s.run(events).is_terminated(w),
        forall|w: int|
            n <= w < s.workers.len() ==> #[trigger] s.run(events).workers[w] == s.workers[w],
    decreases n,
{
    if n == 0 {
        Seq::empty()
    } else {
        let w = (n - 1) as nat;
        let before = lemma_retire(s, w);
        let m = s.run(before);
        assert(!m.is_busy(w));
        if m.is_idle(w) {
            let event = Event::Receive(w);
            let events = before.push(event);
            assert(events.drop_last() =~= before);
            lemma_step_inv(m, event);
            let r = m.step(event);
            assert forall|v: nat| v < r.workers.len() implies !#[trigger] r.is_busy(v) by {
                assert(!m.is_busy(v));
            }
            assert forall|v: nat| v < n implies #[trigger] r.is_terminated(v) by {
                if v < w {
                    assert(m.is_terminated(v));
                }
            }
            events
        } else {
            assert forall|v: nat| v < n implies #[trigger] m.is_terminated(v) by {
                if v < w {
                    assert(m.is_terminated(v));
                }
            }
            before
        }
    }
}

/// With every worker terminated, the joins of the first `n` workers return,
/// lowest worker first.
proof fn lemma_join_all<T>(s: PoolState<T>, n: nat) -> (events: Seq<Event<T>>)
    requires
        s.inv(),
        !s.open,
        forall|w: nat| w < s.workers.len() ==> #[trigger] s.is_terminated(w),
        n <= s.workers.len(),
    ensures
        s.run(events).inv(),
        s.run(events).submitted == s.submitted,
        s.run(events).runs == s.runs,
        !s.run(events).open,
        s.run(events).workers.len() == s.workers.len(),
        forall|w: nat| w < s.workers.len() ==> #[trigger] s.run(events).is_terminated(w),
        forall|w: int| 0 <= w < n ==> (#[trigger] s.run(events).workers[w]).joined,
    decreases n,
{
    if n == 0 {
        Seq::empty()
    } else {
        let w = (n - 1) as nat;
        let before = lemma_join_all(s, w);
        let m = s.run(before);
        let event = Event::Join(w);
        let events = before.push(event);
        assert(events.drop_last() =~= before);
        lemma_step_inv(m, event);
        let r = m.step(event);
        assert(m.is_terminated(w));
        assert forall|v: nat| v < r.workers.len() implies #[trigger] r.is_terminated(v) by {
            assert(m.is_terminated(v));
        }
        assert forall|v: int| 0 <= v < n implies (#[trigger] r.workers[v]).joined by {
            if v < w {
                assert(m.workers[v].joined);
            }
        }
        events
    }
}

/// No item can get stuck. From every state that a pool can reach, a finite
/// course of events leads to the end of the teardown, with no further
/// submission, and at that end every accepted item has been executed.
pub proof fn lemma_can_finish<T>(s: PoolState<T>) -> (events: Seq<Event<T>>)
    requires
        s.inv(),
    ensures
        s.run(events).inv(),
        s.run(events).lifecycle() == Lifecycle::Terminated,
        s.run(events).submitted == s.submitted,
        forall|t: int| 0 <= t < s.submitted.len() ==> #[trigger] s.run(events).is_done(t),
{
    let a = lemma_settle(s, s.workers.len());
    let s1 = s.run(a);
    let b = lemma_drain(s1);
    let s2 = s1.run(b);
    let close = Event::Shutdown;
    let s3 = s2.step(close);
    lemma_step_inv(s2, close);
    lemma_run_one(s2, close);
    assert(settled(s3)) by {
        assert forall|w: nat| w < s3.workers.len() implies !#[trigger] s3.is_busy(w) by {
            assert(!s2.is_busy(w));
        }
    }
    let d = lemma_retire(s3, s3.workers.len());
    let s4 = s3.run(d);
    let e = lemma_join_all(s4, s4.workers.len());
    let s5 = s4.run(e);
    let events = a + b + seq![close] + d + e;
    lemma_run_concat(s, a, b);
    lemma_run_concat(s, a + b, seq![close]);
    lemma_run_concat(s, a + b + seq![close], d);
    lemma_run_concat(s, a + b + seq![close] + d, e);
    assert(s.run(events) == s5);
    lemma_terminated_all_done(s5);
    events
}

/// The events by which `items` are submitted, one after the other.
pub open spec fn submissions<T>(items: Seq<T>) -> Seq<Event<T>> {
    Seq::new(items.len(), |i: int| Event::Execute(items[i]))
}

/// Submitting `items` to a pool that accepts only adds them, in their order,
/// to what was accepted before.
pub proof fn lemma_submissions<T>(s: PoolState<T>, items: Seq<T>)
    requires
        s.open,
    ensures
        s.run(submissions(items)).submitted == s.submitted + items,
        s.run(submissions(items)).runs == s.runs,
        s.run(submissions(items)).workers == s.workers,
        s.run(submissions(items)).open,
    decreases items.len(),
{
    let events = submissions(items);
    if items.len() > 0 {
        lemma_submissions(s, items.drop_last());
        assert(events.drop_last() =~= submissions(items.drop_last()));
        assert(events.last() == Event::Execute(items.last()));
        assert((s.submitted + items.drop_last()).push(items.last()) =~= s.submitted + items);
    } else {
        assert(s.submitted + items =~= s.submitted);
    }
}

/// Every item is executed exactly once, whatever the size of the pool. When
/// a fresh pool is handed `items`, they are accepted in their order; and
/// there is a course of events after which the teardown is over and the
/// pool has made exactly one run for each of them, which has ended. (By
/// `lemma_terminated_all_done` the same holds at the end of every other
/// course of events that ends the teardown, and by `lemma_can_finish` such
/// an end can be reached from wherever the pool stands.)
pub proof fn lemma_every_item_executed_once<T>(size: nat, items: Seq<T>) -> (events: Seq<
    Event<T>,
>)
    requires
        size > 0,
    ensures
        PoolState::<T>::init(size).run(submissions(items)).submitted == items,
        PoolState::<T>::init(size).run(submissions(items)).queue() == items,
        PoolState::<T>::init(size).run(submissions(items) + events).lifecycle()
            == Lifecycle::Terminated,
        PoolState::<T>::init(size).run(submissions(items) + events).submitted == items,
        PoolState::<T>::init(size).run(submissions(items) + events).runs.len() == items.len(),
        forall|t: int|
            0 <= t < items.len() ==> #[trigger] PoolState::<T>::init(size).run(
                submissions(items) + events,
            ).is_done(t),
{
    let fresh = PoolState::<T>::init(size);
    lemma_submissions(fresh, items);
    let handed = fresh.run(submissions(items));
    assert(handed.submitted =~= items);
    assert(handed.queue() =~= items);
    lemma_always_inv::<T>(size, submissions(items));
    let events = lemma_can_finish(handed);
    lemma_run_concat(fresh, submissions(items), events);
    lemma_terminated_all_done(handed.run(events));
    events
}

} // verus!
