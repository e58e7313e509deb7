//! What inspecting one slot of a pool can report.

use vstd::prelude::*;

verus! {

/// The state of one slot at the moment it was inspected.
#[derive(Debug, PartialEq, Eq)]
pub enum AsyncTaskStatus<T> {
    /// The slot holds no task.
    Idle,
    /// The slot holds a task whose value has not arrived yet.
    Pending,
    /// The task's value arrived; it is handed over here, once.
    Finished(T),
}

impl<T> AsyncTaskStatus<T> {
    /// The status of an occupied slot, given what a receive attempt on it
    /// returned: a value means `Finished`, no value means `Pending`.
    pub fn from_received(received: Option<T>) -> (status: Self)
        ensures
            status == Self::spec_from_received(received),
    {
        match received {
            Some(value) => AsyncTaskStatus::Finished(value),
            None => AsyncTaskStatus::Pending,
        }
    }

    /// Specification of [`AsyncTaskStatus::from_received`].
    pub open spec fn spec_from_received(received: Option<T>) -> Self {
        match received {
            Some(value) => AsyncTaskStatus::Finished(value),
            None => AsyncTaskStatus::Pending,
        }
    }
}

} // verus!
