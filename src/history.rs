//! The wake flag as a history of atomic operations.
//!
//! Every store and read-and-clear of one atomic location falls in a single
//! modification order, whichever threads make them; a history is that order,
//! and a read-and-clear sees the value that the operations before it left.
use vstd::prelude::*;
use crate::driver::{bump, reaction, Action, Driver, Event, Phase};

verus! {

/// One operation on the wake flag.
#[derive(Clone, Copy, Debug, PartialEq, Eq, Structural)]
pub enum FlagOp {
    /// A handle's notification: the flag is set.
    Notify,
    /// The driving thread's read-and-clear.
    Take,
}

/// The flag's value after one operation.
pub open spec fn after_op(f: bool, op: FlagOp) -> bool {
    match op {
        FlagOp::Notify => true,
        FlagOp::Take => false,
    }
}

/// The flag's value after the operations of `ops`, from a clear flag.
pub open spec fn flag_value(ops: Seq<FlagOp>) -> bool
    decreases ops.len(),
{
    if ops.len() == 0 {
        false
    } else {
        after_op(flag_value(ops.drop_last()), ops.last())
    }
}

/// What the operation at `j` sees: the value that the earlier ones left.
pub open spec fn seen(ops: Seq<FlagOp>, j: int) -> bool {
    flag_value(ops.take(j))
}

/// No missed wakeup: a read-and-clear that comes after a notification, with
/// no other read-and-clear between them, sees the flag set, whatever else the
/// notifiers do meanwhile.
pub proof fn lemma_notify_not_missed(ops: Seq<FlagOp>, i: int, j: int)
    requires
        0 <= i < j < ops.len(),
        ops[i] == FlagOp::Notify,
        ops[j] == FlagOp::Take,
        forall|k: int| i < k < j ==> #[trigger] ops[k] != FlagOp::Take,
    ensures
        seen(ops, j),
{
    assert(ops.take(j).drop_last() =~= ops.take(j - 1));
    assert(ops[j - 1] == FlagOp::Notify);
}

/// A read-and-clear consumes what it sees: the next one, with no notification
/// between them, sees the flag clear.
pub proof fn lemma_take_clears(ops: Seq<FlagOp>, i: int, j: int)
    requires
        0 <= i < j < ops.len(),
        ops[i] == FlagOp::Take,
        ops[j] == FlagOp::Take,
        forall|k: int| i < k < j ==> #[trigger] ops[k] != FlagOp::Notify,
    ensures
        !seen(ops, j),
{
    assert(ops.take(j).drop_last() =~= ops.take(j - 1));
    assert(ops[j - 1] == FlagOp::Take);
}

proof fn lemma_value_after_suffix(a: Seq<FlagOp>, b: Seq<FlagOp>, post: Seq<FlagOp>)
    requires
        flag_value(a) == flag_value(b),
    ensures
        flag_value(a + post) == flag_value(b + post),
    decreases post.len(),
{
    if post.len() == 0 {
        assert(a + post =~= a);
        assert(b + post =~= b);
    } else {
        lemma_value_after_suffix(a, b, post.drop_last());
        assert((a + post).drop_last() =~= a + post.drop_last());
        assert((b + post).drop_last() =~= b + post.drop_last());
    }
}

/// The history `pre`, then `n` notifications in a row, then `post`.
pub open spec fn with_notifies(pre: Seq<FlagOp>, n: nat, post: Seq<FlagOp>) -> Seq<FlagOp> {
    pre + Seq::new(n, |i: int| FlagOp::Notify) + post
}

/// Notifications coalesce: any number of notifications in a row leave the
/// flag, and every later operation, as one would have, so that repeated
/// notifications bring no second re-poll.
pub proof fn lemma_notifications_coalesce(pre: Seq<FlagOp>, n: nat, post: Seq<FlagOp>)
    requires
        n >= 1,
    ensures
        flag_value(with_notifies(pre, n, post)) == flag_value(with_notifies(pre, 1, post)),
        forall|k: int|
            0 <= k < post.len() ==> #[trigger] seen(with_notifies(pre, n, post), pre.len() + n + k)
                == seen(with_notifies(pre, 1, post), pre.len() + 1 + k),
{
    let a = pre + Seq::new(n, |i: int| FlagOp::Notify);
    let b = pre + Seq::new(1, |i: int| FlagOp::Notify);
    assert(a.last() == FlagOp::Notify);
    assert(b.last() == FlagOp::Notify);
    lemma_value_after_suffix(a, b, post);
    assert forall|k: int| 0 <= k < post.len() implies #[trigger] seen(
        with_notifies(pre, n, post),
        pre.len() + n + k,
    ) == seen(with_notifies(pre, 1, post), pre.len() + 1 + k) by {
        assert((a + post).take(pre.len() + n + k) =~= a + post.take(k));
        assert((b + post).take(pre.len() + 1 + k) =~= b + post.take(k));
        lemma_value_after_suffix(a, b, post.take(k));
    }
}

/// A waiting driver that reads the flag after a notification, with no other
/// read between them, goes back to polling: a notification from any thread is
/// never lost.
pub proof fn lemma_notified_driver_polls<T>(d: Driver, ops: Seq<FlagOp>, i: int, j: int)
    requires
        d.phase == Phase::Waiting,
        0 <= i < j < ops.len(),
        ops[i] == FlagOp::Notify,
        ops[j] == FlagOp::Take,
        forall|k: int| i < k < j ==> #[trigger] ops[k] != FlagOp::Take,
    ensures
        d.accepts(Event::<T>::Woken(seen(ops, j))),
        d.next(Event::<T>::Woken(seen(ops, j))).phase == Phase::Polling,
        reaction(Event::<T>::Woken(seen(ops, j))) == Action::<T>::Poll,
{
    lemma_notify_not_missed(ops, i, j);
}

/// A burst of notifications while the driver waits brings exactly one
/// re-poll: the first read sees the flag set and sends the driver to poll,
/// and a second read with no notification since sees it clear and sends it to
/// spin.
pub proof fn lemma_burst_polls_once<T>(d: Driver, pre: Seq<FlagOp>, n: nat)
    requires
        d.phase == Phase::Waiting,
        n >= 1,
    ensures
        ({
            let ops = with_notifies(pre, n, seq![FlagOp::Take, FlagOp::Take]);
            let first = Event::<T>::Woken(seen(ops, (pre.len() + n) as int));
            let second = Event::<T>::Woken(seen(ops, (pre.len() + n + 1) as int));
            &&& reaction(first) == Action::<T>::Poll
            &&& d.next(first).phase == Phase::Polling
            &&& reaction(second) == Action::<T>::Spin
            &&& d.next(second) == (Driver { spins: bump(d.spins), ..d })
        }),
{
    let ops = with_notifies(pre, n, seq![FlagOp::Take, FlagOp::Take]);
    let j = (pre.len() + n) as int;
    assert(ops[j - 1] == FlagOp::Notify);
    assert(ops[j] == FlagOp::Take);
    assert(ops[j + 1] == FlagOp::Take);
    lemma_notify_not_missed(ops, j - 1, j);
    lemma_take_clears(ops, j, j + 1);
}

} // verus!
