//! The pool: an ordered sequence of slots, each empty or holding the
//! endpoint of one outstanding task.

use vstd::prelude::*;
use vstd::std_specs::convert::IntoSpec;
use vstd::std_specs::iter::IteratorSpec;
use crate::channel::AsyncReceiver;
use crate::executor::run_in_background;
use crate::status::AsyncTaskStatus;
use crate::task::AsyncTask;

verus! {

/// The slots of a pool, oldest first.
pub type Slots<T> = Seq<Option<AsyncReceiver<T>>>;

/// Whether no slot of `slots` holds a task.
pub open spec fn all_empty<T>(slots: Slots<T>) -> bool {
    forall|i: int| 0 <= i < slots.len() ==> (#[trigger] slots[i]) is None
}

/// Whether every endpoint in `slots` can still deliver.
pub open spec fn none_drained<T>(slots: Slots<T>) -> bool {
    forall|i: int|
        0 <= i < slots.len() && (#[trigger] slots[i]) is Some ==> !slots[i]->0.is_drained()
}

/// The slots that stay after a pass that reported `statuses` on `slots`: all
/// but those reported `Finished`, in their order.
pub open spec fn retained<T>(slots: Slots<T>, statuses: Seq<AsyncTaskStatus<T>>) -> Slots<T>
    decreases slots.len(),
{
    if slots.len() == 0 || statuses.len() == 0 {
        Seq::empty()
    } else {
        let before = retained(slots.drop_last(), statuses.drop_last());
        if statuses.last() is Finished {
            before
        } else {
            before.push(slots.last())
        }
    }
}

/// Whether `statuses` and `after` can come of one polling pass over the slots
/// `before`: every slot is reported, in order; an empty slot as `Idle`, an
/// occupied one as `Pending` or `Finished`; and exactly the slots reported
/// `Finished` are gone afterwards.
pub open spec fn is_poll_pass<T>(
    before: Slots<T>,
    statuses: Seq<AsyncTaskStatus<T>>,
    after: Slots<T>,
) -> bool {
    &&& statuses.len() == before.len()
    &&& forall|i: int|
        0 <= i < before.len() ==> ((#[trigger] statuses[i]) is Idle <==> before[i] is None)
    &&& after == retained(before, statuses)
}

/// Whether `finished` and `after` can come of a scan of the slots `before`
/// for one finished task: either nothing was ready and nothing changed, or
/// one occupied slot gave its value and left.
pub open spec fn is_finished_poll<T>(before: Slots<T>, finished: Option<T>, after: Slots<T>) -> bool {
    match finished {
        None => after == before,
        Some(_) => exists|i: int|
            0 <= i < before.len() && (#[trigger] before[i]) is Some && after == before.remove(i),
    }
}

/// A pool of background tasks of one result type.
#[verifier::reject_recursive_types(T)]
pub struct AsyncTaskPool<T> {
    slots: Vec<Option<AsyncReceiver<T>>>,
}

impl<T> View for AsyncTaskPool<T> {
    type V = Slots<T>;

    closed spec fn view(&self) -> Slots<T> {
        self.slots@
    }
}

impl<T> AsyncTaskPool<T> {
    /// Every endpoint in the pool can still deliver: one that has delivered
    /// left the pool in the same call.
    #[verifier::type_invariant]
    spec fn every_endpoint_live(self) -> bool {
        none_drained(self.slots@)
    }

    /// A pool without slots.
    pub fn new() -> (pool: Self)
        ensures
            pool@ == Slots::<T>::empty(),
            all_empty(pool@),
    {
        AsyncTaskPool { slots: Vec::new() }
    }

    /// The number of slots, empty ones included.
    pub fn len(&self) -> (len: usize)
        ensures
            len == self@.len(),
    {
        self.slots.len()
    }

    /// Returns whether the pool is idle: it has no slot, or none of its slots
    /// holds a task.
    pub fn is_idle(&self) -> (idle: bool)
        ensures
            idle == all_empty(self@),
    {
        let mut i: usize = 0;
        while i < self.slots.len()
            invariant
                i <= self.slots@.len(),
                forall|j: int| 0 <= j < i ==> (#[trigger] self.slots@[j]) is None,
            decreases self.slots@.len() - i,
        {
            if self.slots[i].is_some() {
                return false;
            }
            i += 1;
        }
        true
    }

    /// Spawns an async task in the background.
    ///
    /// `task` is first converted into an [`AsyncTask`]; the rest is
    /// [`AsyncTaskPool::spawn_task`]. The pool grows by one occupied slot,
    /// behind all the others, which stay as they were.
    pub fn spawn<I: Into<AsyncTask<T>>>(&mut self, task: I)
        ensures
            final(self)@.len() == old(self)@.len() + 1,
            final(self)@.drop_last() == old(self)@,
            final(self)@.last() is Some,
            !all_empty(final(self)@),
            none_drained(final(self)@),
            <I as IntoSpec<AsyncTask<T>>>::obeys_into_spec() ==> final(self)@ == old(self)@.push(
                Some(IntoSpec::<AsyncTask<T>>::into_spec(task).receiver()),
            ),
    {
        let task: AsyncTask<T> = task.into();
        self.spawn_task(task);
    }

    /// Spawns `task` in the background: its work goes to the executor, and
    /// its endpoint into a new slot behind all others.
    pub fn spawn_task(&mut self, task: AsyncTask<T>)
        ensures
            final(self)@ == old(self)@.push(Some(task.receiver())),
            !all_empty(final(self)@),
            none_drained(final(self)@),
    {
        proof {
            use_type_invariant(&*self);
        }
        let (work, receiver) = task.into_parts();
        run_in_background(work);
        let mut slots = self.take_slots();
        slots.push(Some(receiver));
        assert(slots@.last() is Some);
        *self = AsyncTaskPool { slots };
    }

    /// Iterates and polls the pool for the current task statuses, one per
    /// slot and in slot order: `Idle`, `Pending` or `Finished`.
    ///
    /// A slot reported `Finished` hands its value over and leaves the pool in
    /// this same call; every other slot stays, in its place among those that
    /// stay.
    pub fn iter_poll(&mut self) -> (statuses: std::vec::IntoIter<AsyncTaskStatus<T>>)
        ensures
            is_poll_pass(old(self)@, statuses.remaining(), final(self)@),
            none_drained(final(self)@),
    {
        let slots = self.take_slots();
        let ghost before = slots@;
        let mut kept: Vec<Option<AsyncReceiver<T>>> = Vec::new();
        let mut statuses: Vec<AsyncTaskStatus<T>> = Vec::new();
        for slot in iter: slots.into_iter()
            invariant
                iter.seq() == before,
                none_drained(before),
                none_drained(kept@),
                statuses@.len() == iter.index(),
                forall|j: int|
                    0 <= j < iter.index() ==> ((#[trigger] statuses@[j]) is Idle <==> before[j] is None),
                kept@ == retained(before.take(iter.index() as int), statuses@),
        {
            let ghost seen = before.take(iter.index() as int);
            let ghost reported = statuses@;
            match slot {
                None => {
                    kept.push(None);
                    statuses.push(AsyncTaskStatus::Idle);
                },
                Some(mut receiver) => {
                    let received = receiver.try_recv();
                    if received.is_none() {
                        kept.push(Some(receiver));
                    }
                    statuses.push(AsyncTaskStatus::from_received(received));
                },
            }
            proof {
                let next = before.take(iter.index() + 1);
                assert(next.drop_last() == seen);
                assert(statuses@.drop_last() == reported);
            }
        }
        assert(before.take(before.len() as int) == before);
        *self = AsyncTaskPool { slots: kept };
        statuses.into_iter()
    }

    /// Returns the value of a task that has finished, if there is one.
    ///
    /// The slots are tried in order, and the scan ends at the first that
    /// gives a value: that slot leaves the pool, all others stay as they
    /// were. Without a ready task nothing changes and `None` is returned; so
    /// it is, in particular, on an idle pool.
    pub fn poll_finished(&mut self) -> (finished: Option<T>)
        ensures
            is_finished_poll(old(self)@, finished, final(self)@),
            all_empty(old(self)@) ==> finished is None,
            none_drained(final(self)@),
    {
        let mut slots = self.take_slots();
        let ghost before = slots@;
        let mut i: usize = 0;
        while i < slots.len()
            invariant
                before == old(self)@,
                slots@ == before,
                none_drained(before),
            decreases slots@.len() - i,
        {
            let received = match &mut slots[i] {
                Some(receiver) => receiver.try_recv(),
                None => None,
            };
            if received.is_some() {
                assert(slots@.remove(i as int) == before.remove(i as int));
                slots.remove(i);
                *self = AsyncTaskPool { slots };
                return received;
            }
            i += 1;
        }
        *self = AsyncTaskPool { slots };
        None
    }

    /// Moves the slots out, leaving the pool without any until the caller
    /// puts the rebuilt sequence back.
    fn take_slots(&mut self) -> (slots: Vec<Option<AsyncReceiver<T>>>)
        ensures
            slots@ == old(self)@,
            none_drained(slots@),
            final(self)@ == Slots::<T>::empty(),
    {
        let mut taken = AsyncTaskPool { slots: Vec::new() };
        std::mem::swap(self, &mut taken);
        proof {
            use_type_invariant(&taken);
        }
        taken.slots
    }
}

impl<T> Default for AsyncTaskPool<T> {
    /// A pool without slots.
    fn default() -> (pool: Self)
        ensures
            pool@ == Slots::<T>::empty(),
    {
        AsyncTaskPool::new()
    }
}

} // verus!
