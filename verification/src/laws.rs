//! What holds of a pool over any number of calls: how many values it can
//! report, when it is idle, and what two passes in a row can tell.

use vstd::prelude::*;
use crate::channel::AsyncReceiver;
use crate::pool::{all_empty, is_finished_poll, is_poll_pass, retained, Slots};
use crate::status::AsyncTaskStatus;

verus! {

/// The number of slots of `slots` that hold a task.
pub open spec fn occupied<T>(slots: Slots<T>) -> nat
    decreases slots.len(),
{
    if slots.len() == 0 {
        0
    } else {
        occupied(slots.drop_last()) + if slots.last() is Some {
            1nat
        } else {
            0nat
        }
    }
}

/// The number of `Finished` entries among `statuses`.
pub open spec fn finished_count<T>(statuses: Seq<AsyncTaskStatus<T>>) -> nat
    decreases statuses.len(),
{
    if statuses.len() == 0 {
        0
    } else {
        finished_count(statuses.drop_last()) + if statuses.last() is Finished {
            1nat
        } else {
            0nat
        }
    }
}

/// The entries of `statuses` that are not `Finished`, in their order: what
/// was reported of the slots that stayed.
pub open spec fn unfinished<T>(statuses: Seq<AsyncTaskStatus<T>>) -> Seq<AsyncTaskStatus<T>>
    decreases statuses.len(),
{
    if statuses.len() == 0 {
        Seq::empty()
    } else if statuses.last() is Finished {
        unfinished(statuses.drop_last())
    } else {
        unfinished(statuses.drop_last()).push(statuses.last())
    }
}

/// A sequence of slots is idle exactly when none of them is occupied.
pub proof fn lemma_idle_iff_none_occupied<T>(slots: Slots<T>)
    ensures
        all_empty(slots) <==> occupied(slots) == 0,
    decreases slots.len(),
{
    if slots.len() > 0 {
        let front = slots.drop_last();
        lemma_idle_iff_none_occupied(front);
        if all_empty(slots) {
            assert(slots[slots.len() - 1] is None);
            assert forall|i: int| 0 <= i < front.len() implies (#[trigger] front[i]) is None by {
                assert(slots[i] is None);
            }
        }
        if occupied(slots) == 0 {
            assert forall|i: int| 0 <= i < slots.len() implies (#[trigger] slots[i]) is None by {
                if i < front.len() {
                    assert(front[i] is None);
                }
            }
        }
    }
}

/// A fresh pool is idle, and a pool is not idle right after a spawn: the new
/// slot is occupied, and one more slot is occupied than before.
pub proof fn lemma_spawn_occupies<T>(slots: Slots<T>, receiver: AsyncReceiver<T>)
    ensures
        all_empty(Slots::<T>::empty()),
        occupied(slots.push(Some(receiver))) == occupied(slots) + 1,
        !all_empty(slots.push(Some(receiver))),
{
    let grown = slots.push(Some(receiver));
    assert(grown.drop_last() == slots);
    assert(grown[grown.len() - 1] is Some);
}

/// One pass over the slots removes exactly as many slots as it reports
/// `Finished`, all of them occupied ones: no value is reported without a task
/// that was spawned for it, and none can be reported again.
pub proof fn lemma_poll_pass_accounts<T>(
    before: Slots<T>,
    statuses: Seq<AsyncTaskStatus<T>>,
    after: Slots<T>,
)
    requires
        is_poll_pass(before, statuses, after),
    ensures
        after.len() + finished_count(statuses) == before.len(),
        occupied(after) + finished_count(statuses) == occupied(before),
    decreases before.len(),
{
    if before.len() > 0 {
        let front = before.drop_last();
        let told = statuses.drop_last();
        assert forall|i: int| 0 <= i < front.len() implies ((#[trigger] told[i]) is Idle
            <==> front[i] is None) by {
            assert(statuses[i] is Idle <==> before[i] is None);
        }
        lemma_poll_pass_accounts(front, told, retained(front, told));
        assert(statuses[statuses.len() - 1] is Idle <==> before[before.len() - 1] is None);
        if !(statuses.last() is Finished) {
            assert(after.drop_last() == retained(front, told));
        }
    }
}

/// Taking one slot out leaves one occupied slot fewer if it was occupied,
/// and as many as before if it was empty.
pub proof fn lemma_remove_occupied<T>(slots: Slots<T>, i: int)
    requires
        0 <= i < slots.len(),
    ensures
        occupied(slots.remove(i)) + (if slots[i] is Some {
            1nat
        } else {
            0nat
        }) == occupied(slots),
    decreases slots.len(),
{
    let front = slots.drop_last();
    if i == slots.len() - 1 {
        assert(slots.remove(i) == front);
    } else {
        lemma_remove_occupied(front, i);
        assert(slots.remove(i).drop_last() == front.remove(i));
        assert(slots.remove(i).last() == slots.last());
    }
}

/// A scan for one finished task removes one occupied slot when it returns a
/// value, and nothing when it returns none.
pub proof fn lemma_finished_poll_accounts<T>(before: Slots<T>, finished: Option<T>, after: Slots<T>)
    requires
        is_finished_poll(before, finished, after),
    ensures
        finished is Some ==> occupied(after) + 1 == occupied(before) && after.len() + 1
            == before.len(),
        finished is None ==> after == before,
{
    if finished is Some {
        let i = choose|i: int|
            0 <= i < before.len() && (#[trigger] before[i]) is Some && after == before.remove(i);
        lemma_remove_occupied(before, i);
    }
}

/// When a pool is idle again. After a pass it is exactly when the pass
/// reported every outstanding task `Finished`; after a scan that returned a
/// value, exactly when that was the only outstanding task; and a scan that
/// returned none leaves a busy pool busy.
pub proof fn lemma_idle_after_draining<T>(
    before: Slots<T>,
    statuses: Seq<AsyncTaskStatus<T>>,
    finished: Option<T>,
    after: Slots<T>,
)
    ensures
        is_poll_pass(before, statuses, after) ==> (all_empty(after) <==> finished_count(statuses)
            == occupied(before)),
        is_finished_poll(before, finished, after) && finished is Some ==> (all_empty(after)
            <==> occupied(before) == 1),
        is_finished_poll(before, finished, after) && finished is None ==> (all_empty(after)
            <==> all_empty(before)),
{
    lemma_idle_iff_none_occupied(after);
    if is_poll_pass(before, statuses, after) {
        lemma_poll_pass_accounts(before, statuses, after);
    }
    if is_finished_poll(before, finished, after) {
        lemma_finished_poll_accounts(before, finished, after);
    }
}

/// No entry of `unfinished(statuses)` is `Finished`, and there are as many
/// of them as `statuses` has entries that are not.
pub proof fn lemma_unfinished<T>(statuses: Seq<AsyncTaskStatus<T>>)
    ensures
        unfinished(statuses).len() + finished_count(statuses) == statuses.len(),
        forall|j: int|
            0 <= j < unfinished(statuses).len() ==> !((#[trigger] unfinished(statuses)[j]) is Finished),
        finished_count(statuses) == 0 ==> unfinished(statuses) == statuses,
    decreases statuses.len(),
{
    if statuses.len() > 0 {
        lemma_unfinished(statuses.drop_last());
        if finished_count(statuses) == 0 {
            assert(unfinished(statuses) == statuses.drop_last().push(statuses.last()));
            assert(statuses.drop_last().push(statuses.last()) == statuses);
        }
    }
}

/// The slots that stay after a pass are reported in it by the entries that
/// are not `Finished`: slot for slot, an empty one as `Idle` and an occupied
/// one as `Pending`.
pub proof fn lemma_retained_matches_unfinished<T>(
    before: Slots<T>,
    statuses: Seq<AsyncTaskStatus<T>>,
    after: Slots<T>,
)
    requires
        is_poll_pass(before, statuses, after),
    ensures
        after.len() == unfinished(statuses).len(),
        forall|j: int|
            0 <= j < after.len() ==> ((#[trigger] after[j]) is None <==> unfinished(
                statuses,
            )[j] is Idle),
        forall|j: int|
            0 <= j < after.len() ==> ((#[trigger] after[j]) is Some <==> unfinished(
                statuses,
            )[j] is Pending),
    decreases before.len(),
{
    if before.len() > 0 {
        let front = before.drop_last();
        let told = statuses.drop_last();
        assert forall|i: int| 0 <= i < front.len() implies ((#[trigger] told[i]) is Idle
            <==> front[i] is None) by {
            assert(statuses[i] is Idle <==> before[i] is None);
        }
        lemma_retained_matches_unfinished(front, told, retained(front, told));
        assert(statuses[statuses.len() - 1] is Idle <==> before[before.len() - 1] is None);
    }
}

/// Two passes in a row, with nothing spawned between them. The second
/// reports exactly the slots that the first did not report `Finished`, so no
/// value is reported twice; an empty slot is `Idle` both times; and if
/// nothing finished in between, the second pass repeats what the first said
/// of the slots that stayed, `Pending` for every outstanding one, and leaves
/// the pool as it found it.
pub proof fn lemma_second_pass<T>(
    before: Slots<T>,
    first: Seq<AsyncTaskStatus<T>>,
    between: Slots<T>,
    second: Seq<AsyncTaskStatus<T>>,
    after: Slots<T>,
)
    requires
        is_poll_pass(before, first, between),
        is_poll_pass(between, second, after),
    ensures
        second.len() + finished_count(first) == first.len(),
        second.len() == unfinished(first).len(),
        forall|j: int|
            0 <= j < second.len() ==> ((#[trigger] second[j]) is Idle <==> unfinished(first)[j] is Idle),
        finished_count(second) == 0 ==> second == unfinished(first) && after == between,
{
    lemma_unfinished(first);
    lemma_retained_matches_unfinished(before, first, between);
    assert forall|j: int| 0 <= j < second.len() implies ((#[trigger] second[j]) is Idle
        <==> unfinished(first)[j] is Idle) by {
        assert(between[j] is None <==> unfinished(first)[j] is Idle);
    }
    if finished_count(second) == 0 {
        lemma_unfinished(second);
        lemma_poll_pass_accounts(between, second, after);
        lemma_retained_matches_unfinished(between, second, after);
        lemma_nothing_finished_keeps_all(between, second);
        assert forall|j: int| 0 <= j < second.len() implies second[j] == unfinished(first)[j] by {
            assert(!(unfinished(second)[j] is Finished));
            assert(!(unfinished(first)[j] is Finished));
            assert(second[j] is Idle <==> unfinished(first)[j] is Idle);
        }
        assert(second =~= unfinished(first));
    }
}

/// A pass that reports nothing `Finished` keeps every slot.
pub proof fn lemma_nothing_finished_keeps_all<T>(slots: Slots<T>, statuses: Seq<AsyncTaskStatus<T>>)
    requires
        statuses.len() == slots.len(),
        finished_count(statuses) == 0,
    ensures
        retained(slots, statuses) == slots,
    decreases slots.len(),
{
    if slots.len() > 0 {
        lemma_nothing_finished_keeps_all(slots.drop_last(), statuses.drop_last());
        assert(slots.drop_last().push(slots.last()) == slots);
    }
}

/// One call on a pool, with what went in or what came out of it.
#[verifier::reject_recursive_types(T)]
pub enum PoolCall<T> {
    /// A spawn, with the endpoint of the task that was spawned.
    Spawn(AsyncReceiver<T>),
    /// A pass over all slots, with the statuses it reported.
    IterPoll(Seq<AsyncTaskStatus<T>>),
    /// A scan for one finished task, with what it returned.
    PollFinished(Option<T>),
}

/// Whether `call` can lead from the slots `before` to the slots `after`.
pub open spec fn is_call<T>(before: Slots<T>, call: PoolCall<T>, after: Slots<T>) -> bool {
    match call {
        PoolCall::Spawn(receiver) => after == before.push(Some(receiver)),
        PoolCall::IterPoll(statuses) => is_poll_pass(before, statuses, after),
        PoolCall::PollFinished(finished) => is_finished_poll(before, finished, after),
    }
}

/// Whether `calls`, made one after the other on a fresh pool, can take it
/// through `states`: the slots before the first call, which are none, and
/// after each call.
pub open spec fn is_history<T>(states: Seq<Slots<T>>, calls: Seq<PoolCall<T>>) -> bool {
    &&& states.len() == calls.len() + 1
    &&& states[0] == Slots::<T>::empty()
    &&& forall|k: int|
        0 <= k < calls.len() ==> is_call(states[k], #[trigger] calls[k], states[k + 1])
}

/// The number of values that `call` handed to its caller.
pub open spec fn values_of<T>(call: PoolCall<T>) -> nat {
    match call {
        PoolCall::Spawn(_) => 0,
        PoolCall::IterPoll(statuses) => finished_count(statuses),
        PoolCall::PollFinished(finished) => if finished is Some {
            1
        } else {
            0
        },
    }
}

/// The number of tasks spawned by `calls`.
pub open spec fn spawned<T>(calls: Seq<PoolCall<T>>) -> nat
    decreases calls.len(),
{
    if calls.len() == 0 {
        0
    } else {
        spawned(calls.drop_last()) + if calls.last() is Spawn {
            1nat
        } else {
            0nat
        }
    }
}

/// The number of values that `calls` handed out, all calls together.
pub open spec fn reported<T>(calls: Seq<PoolCall<T>>) -> nat
    decreases calls.len(),
{
    if calls.len() == 0 {
        0
    } else {
        reported(calls.drop_last()) + values_of(calls.last())
    }
}

/// Over the whole life of a pool, whatever the calls and their order: every
/// task that was spawned is either still in an occupied slot or has handed
/// out its value, once. So a pool never reports more values than tasks were
/// spawned.
pub proof fn lemma_every_value_once<T>(states: Seq<Slots<T>>, calls: Seq<PoolCall<T>>)
    requires
        is_history(states, calls),
    ensures
        reported(calls) + occupied(states.last()) == spawned(calls),
        reported(calls) <= spawned(calls),
    decreases calls.len(),
{
    if calls.len() > 0 {
        let earlier = calls.drop_last();
        let passed = states.drop_last();
        assert forall|k: int| 0 <= k < earlier.len() implies is_call(
            passed[k],
            #[trigger] earlier[k],
            passed[k + 1],
        ) by {
            assert(is_call(states[k], calls[k], states[k + 1]));
        }
        lemma_every_value_once(passed, earlier);
        let n = calls.len() - 1;
        let before = states[n];
        let after = states[n + 1];
        assert(is_call(before, calls[n], after));
        assert(passed.last() == before);
        match calls[n] {
            PoolCall::Spawn(receiver) => {
                lemma_spawn_occupies(before, receiver);
            },
            PoolCall::IterPoll(statuses) => {
                lemma_poll_pass_accounts(before, statuses, after);
            },
            PoolCall::PollFinished(finished) => {
                lemma_finished_poll_accounts(before, finished, after);
            },
        }
    }
}

} // verus!
