//! The shared executor that runs spawned work.

use vstd::prelude::*;
use crate::task::Work;

verus! {

/// Hands `work` to bevy's process-wide pool for background computations and
/// lets it run detached: `AsyncComputeTaskPool::get_or_init`, with
/// `TaskPool::new` to start the pool's threads if nobody has yet, then
/// `TaskPool::spawn` and `Task::detach`. When, or whether, the work finishes
/// is the executor's affair: nothing is claimed.
#[verifier::external_body]
pub(crate) fn run_in_background(work: Work) {
    bevy::tasks::AsyncComputeTaskPool::get_or_init(bevy::tasks::TaskPool::new).spawn(work).detach();
}

} // verus!
