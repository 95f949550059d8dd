//! What holds of every pool: how many workers it has and how many items
//! execute at once, where each accepted item is, what a fault does, and what
//! is true once the teardown is over.

use crate::safety::{lemma_always_inv, lemma_complete_inv, lemma_step_inv};
use crate::model::{Event, Lifecycle, Outcome, Phase, PoolState, Receive};
use vstd::prelude::*;

verus! {

/// A pool of `size` workers starts with exactly `size` live workers, all of
/// them idle, and with an open, empty queue.
pub proof fn lemma_new_pool_all_live<T>(size: nat)
    requires
        size > 0,
    ensures
        PoolState::<T>::init(size).size() == size,
        PoolState::<T>::init(size).live() == size,
        PoolState::<T>::init(size).running() == 0,
        forall|w: nat| w < size ==> #[trigger] PoolState::<T>::init(size).is_idle(w),
        PoolState::<T>::init(size).queue().len() == 0,
        PoolState::<T>::init(size).lifecycle() == Lifecycle::Accepting,
{
    let s = PoolState::<T>::init(size);
    lemma_all_idle_counts(s, size);
}

/// Where the first `n` workers are all idle, `n` of them are live and none
/// is busy.
proof fn lemma_all_idle_counts<T>(s: PoolState<T>, n: nat)
    requires
        n <= s.workers.len(),
        forall|w: nat| w < n ==> #[trigger] s.is_idle(w),
    ensures
        s.live_below(n) == n,
        s.busy_below(n) == 0,
    decreases n,
{
    if n > 0 {
        lemma_all_idle_counts(s, (n - 1) as nat);
        assert(s.is_idle((n - 1) as nat));
    }
}

/// Where the first `n` workers have all terminated, none of them is live.
proof fn lemma_none_live_counts<T>(s: PoolState<T>, n: nat)
    requires
        n <= s.workers.len(),
        forall|w: nat| w < n ==> #[trigger] s.is_terminated(w),
    ensures
        s.live_below(n) == 0,
        s.busy_below(n) == 0,
    decreases n,
{
    if n > 0 {
        lemma_none_live_counts(s, (n - 1) as nat);
        assert(s.is_terminated((n - 1) as nat));
    }
}

/// Never more workers are busy, or live, than the pool has.
pub proof fn lemma_counts_bounded<T>(s: PoolState<T>, n: nat)
    ensures
        s.busy_below(n) <= s.live_below(n) <= n,
    decreases n,
{
    if n > 0 {
        lemma_counts_bounded(s, (n - 1) as nat);
    }
}

/// Each accepted item is in exactly one of three places: waiting in the
/// queue, executing, or done. While it executes, exactly one worker is busy
/// with it.
pub proof fn lemma_exactly_once<T>(s: PoolState<T>, t: int)
    requires
        s.inv(),
        0 <= t < s.submitted.len(),
    ensures
        s.is_queued(t) || s.is_running(t) || s.is_done(t),
        !(s.is_queued(t) && s.is_running(t)),
        !(s.is_queued(t) && s.is_done(t)),
        !(s.is_running(t) && s.is_done(t)),
        s.is_running(t) ==> forall|w: nat|
            w < s.workers.len() ==> (#[trigger] s.workers[w as int].phase == Phase::Busy(t as nat)
                <==> w == s.runs[t].worker),
        !s.is_running(t) ==> forall|w: nat|
            w < s.workers.len() ==> #[trigger] s.workers[w as int].phase != Phase::Busy(t as nat),
{
    if s.is_running(t) {
        assert(s.run_ok(t));
    }
    assert forall|w: nat| w < s.workers.len() && #[trigger] s.workers[w as int].phase
        == Phase::Busy(t as nat) implies s.is_running(t) && w == s.runs[t].worker by {
        assert(s.worker_ok(w as int));
    }
}

/// Items leave the queue in the order in which they were submitted: a worker
/// that is handed an item is handed the oldest one that waits, and the rest
/// of the queue stays as it was.
pub proof fn lemma_first_in_first_out<T>(s: PoolState<T>, w: nat)
    requires
        s.inv(),
        s.is_idle(w),
        s.queue().len() > 0,
    ensures
        s.received(w) == Receive::Job(s.queue()[0]),
        s.receive(w).queue() == s.queue().skip(1),
        s.receive(w).is_running(s.runs.len() as int),
        s.receive(w).runs[s.runs.len() as int].worker == w,
{
    assert(s.receive(w).queue() =~= s.queue().skip(1));
}

/// The tickets of the items that execute now on one of the first `n`
/// workers.
spec fn executing_below<T>(s: PoolState<T>, n: nat) -> Set<int> {
    Set::new(|t: int| s.is_running(t) && s.runs[t].worker < n)
}

proof fn lemma_executing_below<T>(s: PoolState<T>, n: nat)
    requires
        s.inv(),
        n <= s.workers.len(),
    ensures
        executing_below(s, n).finite(),
        executing_below(s, n).len() == s.busy_below(n),
    decreases n,
{
    if n == 0 {
        assert(executing_below(s, n) =~= Set::<int>::empty());
    } else {
        let w = (n - 1) as nat;
        let before = executing_below(s, w);
        lemma_executing_below(s, w);
        assert(s.worker_ok(w as int));
        if s.is_busy(w) {
            let held = s.workers[w as int].phase->Busy_0 as int;
            assert forall|t: int| executing_below(s, n).contains(t) implies before.insert(
                held,
            ).contains(t) by {
                assert(s.run_ok(t));
            }
            assert(executing_below(s, n) =~= before.insert(held));
        } else {
            assert forall|t: int| executing_below(s, n).contains(t) implies before.contains(t) by {
                assert(s.run_ok(t));
            }
            assert(executing_below(s, n) =~= before);
        }
    }
}

/// The concurrency bound. The items that execute at any one moment are as
/// many as there are busy workers, and never more than the pool has workers.
pub proof fn lemma_concurrency_bound<T>(s: PoolState<T>)
    requires
        s.inv(),
    ensures
        s.executing().finite(),
        s.executing().len() == s.running(),
        s.running() <= s.size(),
{
    lemma_executing_below(s, s.workers.len());
    assert forall|t: int| s.executing().contains(t) implies executing_below(
        s,
        s.workers.len(),
    ).contains(t) by {
        assert(s.run_ok(t));
    }
    assert(s.executing() =~= executing_below(s, s.workers.len()));
    lemma_counts_bounded(s, s.workers.len());
}

/// At no moment in the life of a pool of `size` workers do more than `size`
/// items execute.
pub proof fn lemma_never_more_than_size<T>(size: nat, events: Seq<Event<T>>)
    requires
        size > 0,
    ensures
        PoolState::<T>::init(size).run(events).executing().finite(),
        PoolState::<T>::init(size).run(events).executing().len() <= size,
{
    lemma_always_inv::<T>(size, events);
    lemma_concurrency_bound(PoolState::<T>::init(size).run(events));
}

/// A worker never leaves in the middle of an item. While a worker is busy,
/// nothing but the end of its own item changes what it does: not a
/// submission, not the start of the teardown, not a request or a report of
/// another worker, not a join.
pub proof fn lemma_busy_until_complete<T>(s: PoolState<T>, w: nat, event: Event<T>)
    requires
        s.inv(),
        s.is_busy(w),
        !(event matches Event::Complete(v, _) && v == w),
    ensures
        s.step(event).workers[w as int] == s.workers[w as int],
        s.step(event).is_busy(w),
{
}

/// Whether two states are the same but for the outcomes that they record:
/// the same items, the same queue, the same runs by the same workers, ended
/// or not, and every worker doing the same.
pub open spec fn same_but_outcomes<T>(a: PoolState<T>, b: PoolState<T>) -> bool {
    &&& a.submitted == b.submitted
    &&& a.open == b.open
    &&& a.runs.len() == b.runs.len()
    &&& a.workers.len() == b.workers.len()
    &&& forall|t: int|
        0 <= t < a.runs.len() ==> (#[trigger] a.runs[t]).worker == b.runs[t].worker && (
        a.runs[t].outcome is None <==> b.runs[t].outcome is None)
    &&& forall|w: int|
        0 <= w < a.workers.len() ==> (#[trigger] a.workers[w]).phase == b.workers[w].phase
            && a.workers[w].joined == b.workers[w].joined
}

/// A worker terminates exactly when it asks for work and finds the queue
/// closed and drained; and once terminated it stays so.
pub proof fn lemma_terminates_on_closure_alone<T>(s: PoolState<T>, w: nat, event: Event<T>)
    requires
        s.inv(),
        w < s.workers.len(),
    ensures
        (!s.is_terminated(w) && s.step(event).is_terminated(w)) <==> (event == Event::<T>::Receive(
            w,
        ) && s.is_idle(w) && !s.open && s.queue().len() == 0),
        s.is_terminated(w) ==> s.step(event).is_terminated(w),
{
    match event {
        Event::Complete(v, outcome) => {
            if v < s.workers.len() {
                assert(s.worker_ok(v as int));
            }
        },
        _ => {},
    }
}

/// A fault is contained. When the item of a busy worker ends in a fault, the
/// worker is live and idle afterwards; the fault is on record as the
/// worker's last outcome and as the outcome of the run; and in everything
/// else the pool is as it would be had the item ended well.
pub proof fn lemma_fault_contained<T>(s: PoolState<T>, w: nat)
    requires
        s.inv(),
        s.is_busy(w),
    ensures
        s.complete(w, Outcome::Faulted).inv(),
        s.complete(w, Outcome::Faulted).is_idle(w),
        s.complete(w, Outcome::Faulted).is_live(w),
        s.complete(w, Outcome::Faulted).workers[w as int].last == Some(Outcome::Faulted),
        s.complete(w, Outcome::Faulted).is_done(s.workers[w as int].phase->Busy_0 as int),
        same_but_outcomes(s.complete(w, Outcome::Faulted), s.complete(w, Outcome::Finished)),
{
    lemma_complete_inv(s, w, Outcome::Faulted);
    assert(s.worker_ok(w as int));
}

/// After a fault the pool goes on as if nothing had gone wrong. Whatever
/// happens to it later, it accepts the same items, hands them to the same
/// workers in the same order and tells every worker the same as it would
/// have, had the item ended well.
pub proof fn lemma_fault_leaves_no_trace<T>(
    s: PoolState<T>,
    w: nat,
    events: Seq<Event<T>>,
    v: nat,
)
    requires
        s.inv(),
        s.is_busy(w),
    ensures
        same_but_outcomes(
            s.complete(w, Outcome::Faulted).run(events),
            s.complete(w, Outcome::Finished).run(events),
        ),
        s.complete(w, Outcome::Faulted).run(events).received(v) == s.complete(
            w,
            Outcome::Finished,
        ).run(events).received(v),
{
    lemma_fault_contained(s, w);
    lemma_complete_inv(s, w, Outcome::Finished);
    lemma_same_future(s.complete(w, Outcome::Faulted), s.complete(w, Outcome::Finished), events);
}

/// Two states that are the same but for the outcomes stay so whatever
/// happens to both.
proof fn lemma_same_future<T>(a: PoolState<T>, b: PoolState<T>, events: Seq<Event<T>>)
    requires
        a.inv(),
        b.inv(),
        same_but_outcomes(a, b),
    ensures
        a.run(events).inv(),
        b.run(events).inv(),
        same_but_outcomes(a.run(events), b.run(events)),
    decreases events.len(),
{
    if events.len() > 0 {
        let before = events.drop_last();
        lemma_same_future(a, b, before);
        let x = a.run(before);
        let y = b.run(before);
        let event = events.last();
        lemma_step_inv(x, event);
        lemma_step_inv(y, event);
        match event {
            Event::Complete(u, outcome) => {
                if u < x.workers.len() {
                    assert(x.worker_ok(u as int));
                    assert(y.worker_ok(u as int));
                }
            },
            _ => {},
        }
    }
}

/// The teardown closes the queue before it joins. A join can return only
/// for a worker that has seen the queue closed and drained, so by then
/// nothing is accepted any more, nothing waits, and no run of that worker
/// is unfinished.
pub proof fn lemma_join_after_close<T>(s: PoolState<T>, w: nat)
    requires
        s.inv(),
        s.can_join(w),
    ensures
        !s.open,
        s.queue().len() == 0,
        forall|t: int| 0 <= t < s.runs.len() && s.runs[t].worker == w ==> #[trigger] s.is_done(t),
        s.join(w).lifecycle() != Lifecycle::Accepting,
{
    assert(s.worker_ok(w as int));
    assert forall|t: int|
        0 <= t < s.runs.len() && s.runs[t].worker == w implies #[trigger] s.is_done(t) by {
        assert(s.run_ok(t));
    }
}

/// Once the teardown is over, every accepted item has been executed to its
/// end and no worker is live: nothing waits, nothing executes.
pub proof fn lemma_terminated_all_done<T>(s: PoolState<T>)
    requires
        s.inv(),
        s.lifecycle() == Lifecycle::Terminated,
    ensures
        forall|t: int| 0 <= t < s.submitted.len() ==> #[trigger] s.is_done(t),
        s.runs.len() == s.submitted.len(),
        forall|w: nat| w < s.workers.len() ==> #[trigger] s.is_terminated(w),
        s.queue().len() == 0,
        s.live() == 0,
        s.running() == 0,
{
    assert forall|w: nat| w < s.workers.len() implies #[trigger] s.is_terminated(w) by {
        assert(s.workers[w as int].joined);
        assert(s.worker_ok(w as int));
    }
    assert(s.is_terminated(0));
    assert(s.worker_ok(0));
    assert forall|t: int| 0 <= t < s.submitted.len() implies #[trigger] s.is_done(t) by {
        assert(s.run_ok(t));
        assert(s.is_terminated(s.runs[t].worker));
    }
    lemma_none_live_counts(s, s.workers.len());
}

/// However a pool of `size` workers got to the end of its teardown, at that
/// end every item that it ever accepted has been executed, by one run each,
/// and none of its workers is live.
pub proof fn lemma_after_teardown<T>(size: nat, events: Seq<Event<T>>)
    requires
        size > 0,
        PoolState::<T>::init(size).run(events).lifecycle() == Lifecycle::Terminated,
    ensures
        PoolState::<T>::init(size).run(events).runs.len() == PoolState::<T>::init(size).run(
            events,
        ).submitted.len(),
        forall|t: int|
            0 <= t < PoolState::<T>::init(size).run(events).submitted.len()
                ==> #[trigger] PoolState::<T>::init(size).run(events).is_done(t),
        PoolState::<T>::init(size).run(events).live() == 0,
        forall|w: nat|
            w < size ==> #[trigger] PoolState::<T>::init(size).run(events).is_terminated(w),
{
    lemma_always_inv::<T>(size, events);
    lemma_terminated_all_done(PoolState::<T>::init(size).run(events));
}

/// The teardown may be started, and a worker joined, more than once: the
/// second time changes nothing.
pub proof fn lemma_teardown_idempotent<T>(s: PoolState<T>, w: nat)
    ensures
        s.shutdown().shutdown() == s.shutdown(),
        s.join(w).join(w) == s.join(w),
        !s.join(w).can_join(w),
{
}

} // verus!
