//! Runs of the drive state machine over sequences of events, and the laws that
//! every run obeys.
use vstd::prelude::*;
use crate::driver::{bump, reaction, Action, Driver, Event, Phase, TaskPoll};

verus! {

/// The state after each event of `es` in turn, from `d`.
pub open spec fn run<T>(d: Driver, es: Seq<Event<T>>) -> Driver
    decreases es.len(),
{
    if es.len() == 0 {
        d
    } else {
        run(d, es.drop_last()).next(es.last())
    }
}

/// Whether a loop may report the events of `es` in turn, from `d`: each one
/// is taken by the state that the earlier ones led to.
pub open spec fn admits<T>(d: Driver, es: Seq<Event<T>>) -> bool {
    forall|i: int| 0 <= i < es.len() ==> run(d, #[trigger] es.take(i)).accepts(es[i])
}

/// Whether the event is a poll outcome.
pub open spec fn is_poll<T>(e: Event<T>) -> bool {
    e is Polled
}

/// Whether the event is a read of a clear flag, which costs one spin.
pub open spec fn is_spin<T>(e: Event<T>) -> bool {
    e == Event::<T>::Woken(false)
}

/// How many events of `es` satisfy `p`.
pub open spec fn count<T>(es: Seq<Event<T>>, p: spec_fn(Event<T>) -> bool) -> nat
    decreases es.len(),
{
    if es.len() == 0 {
        0
    } else {
        count(es.drop_last(), p) + if p(es.last()) { 1nat } else { 0nat }
    }
}

/// `n + k`, held at `u64::MAX`.
pub open spec fn bumped(n: u64, k: nat) -> u64 {
    if n + k < u64::MAX {
        (n + k) as u64
    } else {
        u64::MAX
    }
}

/// The trace of a task that suspends once: one suspended poll, `k` reads of a
/// clear flag, one read of the set flag, and a poll that completes with `v`.
pub open spec fn suspend_once<T>(k: nat, v: T) -> Seq<Event<T>> {
    seq![Event::Polled(TaskPoll::Suspended)]
        + Seq::new(k, |i: int| Event::<T>::Woken(false))
        + seq![Event::Woken(true), Event::Polled(TaskPoll::Ready(v))]
}

proof fn lemma_run_step<T>(d: Driver, es: Seq<Event<T>>, i: int)
    requires
        0 <= i < es.len(),
    ensures
        run(d, es.take(i + 1)) == run(d, es.take(i)).next(es[i]),
{
    assert(es.take(i + 1).drop_last() =~= es.take(i));
}

/// Running over `a` then `b` is running over `a + b`.
pub proof fn lemma_run_append<T>(d: Driver, a: Seq<Event<T>>, b: Seq<Event<T>>)
    ensures
        run(d, a + b) == run(run(d, a), b),
        admits(d, a) && admits(run(d, a), b) ==> admits(d, a + b),
    decreases b.len(),
{
    if b.len() == 0 {
        assert(a + b =~= a);
    } else {
        assert((a + b).drop_last() =~= a + b.drop_last());
        lemma_run_append(d, a, b.drop_last());
    }
    if admits(d, a) && admits(run(d, a), b) {
        assert forall|i: int| 0 <= i < (a + b).len() implies run(d, #[trigger] (a + b).take(i)).accepts(
            (a + b)[i],
        ) by {
            if i < a.len() {
                assert((a + b).take(i) =~= a.take(i));
            } else {
                assert((a + b).take(i) =~= a + b.take(i - a.len()));
                lemma_run_append(d, a, b.take(i - a.len()));
            }
        }
    }
}

/// The counts of a run are the counts before it plus the polls and the spins
/// among its events, each held at `u64::MAX`.
pub proof fn lemma_run_counts<T>(d: Driver, es: Seq<Event<T>>)
    ensures
        run(d, es).polls == bumped(d.polls, count(es, |e: Event<T>| is_poll(e))),
        run(d, es).spins == bumped(d.spins, count(es, |e: Event<T>| is_spin(e))),
    decreases es.len(),
{
    if es.len() > 0 {
        lemma_run_counts(d, es.drop_last());
    }
}

/// Once the task has completed, the driver takes no further event: a run
/// that admits its events ends at the first completed poll, and the one
/// `Return` is its last action.
pub proof fn lemma_return_is_last<T>(d: Driver, es: Seq<Event<T>>, i: int)
    requires
        admits(d, es),
        0 <= i < es.len(),
        reaction(es[i]) is Return,
    ensures
        i == es.len() - 1,
        run(d, es).phase == Phase::Done,
{
    lemma_run_step(d, es, i);
    if i + 1 < es.len() {
        assert(run(d, es.take(i + 1)).accepts(es[i + 1]));
    }
    assert(es.take(i + 1) =~= es);
}

/// Every poll but the first of a drive call comes right after a read that
/// found the wake flag set: the task is never polled again before a
/// notification has been observed.
pub proof fn lemma_poll_follows_wake<T>(es: Seq<Event<T>>, i: int)
    requires
        admits(Driver::initial(), es),
        0 < i < es.len(),
        is_poll(es[i]),
    ensures
        es[i - 1] == Event::<T>::Woken(true),
{
    let d = Driver::initial();
    assert(run(d, es.take(i)).accepts(es[i]));
    assert(run(d, es.take(i - 1)).accepts(es[i - 1]));
    lemma_run_step(d, es, i - 1);
}

/// A task that is ready at once: the drive call takes exactly one event,
/// returns the task's value, and makes one poll and no spin.
pub proof fn lemma_ready_at_once<T>(es: Seq<Event<T>>, v: T)
    requires
        admits(Driver::initial(), es),
        es.len() > 0,
        es[0] == Event::Polled(TaskPoll::Ready(v)),
    ensures
        es.len() == 1,
        reaction(es[0]) == Action::Return(v),
        run(Driver::initial(), es) == (Driver { phase: Phase::Done, polls: 1, spins: 0 }),
{
    lemma_return_is_last(Driver::initial(), es, 0);
    assert(es.drop_last() =~= Seq::<Event<T>>::empty());
}

/// A spurious wakeup: from waiting, a set flag and a poll that suspends again
/// cost one poll and lead back to waiting, with no value returned.
pub proof fn lemma_spurious_wake<T>(d: Driver)
    requires
        d.phase == Phase::Waiting,
    ensures
        ({
            let es = seq![Event::<T>::Woken(true), Event::Polled(TaskPoll::Suspended)];
            &&& admits(d, es)
            &&& run(d, es) == (Driver { phase: Phase::Waiting, polls: bump(d.polls), spins: d.spins })
            &&& forall|i: int| 0 <= i < es.len() ==> !(reaction(#[trigger] es[i]) is Return)
        }),
{
    let es = seq![Event::<T>::Woken(true), Event::Polled(TaskPoll::Suspended)];
    lemma_run_step(d, es, 0);
    lemma_run_step(d, es, 1);
    assert(es.take(0) =~= Seq::<Event<T>>::empty());
    assert(es.take(2) =~= es);
}

proof fn lemma_clear_reads<T>(d: Driver, k: nat)
    requires
        d.phase == Phase::Waiting,
    ensures
        admits(d, Seq::new(k, |i: int| Event::<T>::Woken(false))),
        run(d, Seq::new(k, |i: int| Event::<T>::Woken(false))) == (Driver {
            spins: bumped(d.spins, k),
            ..d
        }),
    decreases k,
{
    let es = Seq::new(k, |i: int| Event::<T>::Woken(false));
    if k > 0 {
        let k1 = (k - 1) as nat;
        lemma_clear_reads::<T>(d, k1);
        assert(es.drop_last() =~= Seq::new(k1, |i: int| Event::<T>::Woken(false)));
        assert forall|i: int| 0 <= i < es.len() implies run(d, #[trigger] es.take(i)).accepts(
            es[i],
        ) by {
            if i < k1 {
                assert(es.take(i) =~= Seq::new(k1, |i: int| Event::<T>::Woken(false)).take(i));
            } else {
                assert(es.take(i) =~= Seq::new(k1, |i: int| Event::<T>::Woken(false)));
            }
        }
    }
}

/// A task that suspends once and completes after the flag is seen set: the
/// driver takes the whole trace, returns the task's value at its end and at no
/// earlier event, and counts two polls and one spin per clear read.
pub proof fn lemma_suspend_once<T>(k: nat, v: T)
    requires
        k < u64::MAX,
    ensures
        admits(Driver::initial(), suspend_once(k, v)),
        run(Driver::initial(), suspend_once(k, v)) == (Driver {
            phase: Phase::Done,
            polls: 2,
            spins: k as u64,
        }),
        reaction(suspend_once(k, v).last()) == Action::Return(v),
        forall|i: int|
            0 <= i < suspend_once(k, v).len() - 1 ==> !(reaction(
                #[trigger] suspend_once(k, v)[i],
            ) is Return),
{
    let d0 = Driver::initial();
    let a = seq![Event::<T>::Polled(TaskPoll::Suspended)];
    let w = Seq::new(k, |i: int| Event::<T>::Woken(false));
    let b = seq![Event::<T>::Woken(true), Event::Polled(TaskPoll::Ready(v))];
    assert(suspend_once(k, v) == a + w + b);
    lemma_run_step(d0, a, 0);
    assert(a.take(0) =~= Seq::<Event<T>>::empty());
    assert(a.take(1) =~= a);
    let d1 = run(d0, a);
    assert(admits(d0, a));
    lemma_clear_reads::<T>(d1, k);
    lemma_run_append(d0, a, w);
    let d2 = run(d0, a + w);
    lemma_run_step(d2, b, 0);
    lemma_run_step(d2, b, 1);
    assert(b.take(0) =~= Seq::<Event<T>>::empty());
    assert(b.take(2) =~= b);
    assert(admits(d2, b));
    lemma_run_append(d0, a + w, b);
    let es = suspend_once(k, v);
    assert forall|i: int| 0 <= i < es.len() - 1 implies !(reaction(#[trigger] es[i]) is Return) by {
        if i == 0 {
        } else if i < k + 1 {
            assert(es[i] == w[i - 1]);
        } else {
            assert(es[i] == b[0]);
        }
    }
}

} // verus!
