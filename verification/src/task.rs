//! One unit of background work and the endpoint its value arrives at.

use vstd::prelude::*;
use crate::channel::{channel, AsyncReceiver, AsyncSender};

verus! {

/// A type-erased, sendable future from `futures-util`, carried through as an
/// opaque value.
#[verifier::external_type_specification]
#[verifier::external_body]
#[verifier::reject_recursive_types(T)]
pub struct ExFutureObj<'a, T>(futures_util::task::FutureObj<'a, T>);

/// The executable half of a task: a future that, driven to its end by an
/// executor, has delivered the task's value to the paired endpoint.
pub type Work = futures_util::task::FutureObj<'static, ()>;

/// Builds, with `futures_util::FutureExt::map`, the future that awaits
/// `computation` and then passes its value to [`AsyncSender::send`] on
/// `sender`, and erases its type with `FutureObj::new`. Nothing is claimed of
/// the future that comes back.
#[verifier::external_body]
fn deliver_through<F, T>(computation: F, sender: AsyncSender<T>) -> (work: Work)
    where
        F: std::future::Future<Output = T> + Send + 'static,
        T: Send + 'static,
{
    let delivering = futures_util::FutureExt::map(computation, move |value| sender.send(value));
    futures_util::task::FutureObj::new(Box::new(delivering))
}

/// A unit of background work that will eventually produce a `T`.
///
/// It lives from its construction to the moment a pool takes it apart.
#[verifier::reject_recursive_types(T)]
pub struct AsyncTask<T> {
    work: Work,
    receiver: AsyncReceiver<T>,
}

impl<T> AsyncTask<T> {
    /// Nothing has been received from the endpoint of a task that was not
    /// spawned yet.
    #[verifier::type_invariant]
    spec fn endpoint_live(self) -> bool {
        !self.receiver.is_drained()
    }

    /// The endpoint at which the value will arrive.
    pub closed spec fn receiver(&self) -> AsyncReceiver<T> {
        self.receiver
    }

    /// A task that runs `computation` and delivers what it produces.
    pub fn new<F>(computation: F) -> (task: Self)
        where
            F: std::future::Future<Output = T> + Send + 'static,
            T: Send + 'static,
        ensures
            !task.receiver().is_drained(),
    {
        let (sender, receiver) = channel();
        let work = deliver_through(computation, sender);
        AsyncTask { work, receiver }
    }

    /// Splits the task into the work to hand to an executor and the endpoint
    /// to keep.
    pub fn into_parts(self) -> (parts: (Work, AsyncReceiver<T>))
        ensures
            parts.1 == self.receiver(),
            !parts.1.is_drained(),
    {
        proof {
            use_type_invariant(&self);
        }
        (self.work, self.receiver)
    }
}

impl<F, T> From<F> for AsyncTask<T> where
    F: std::future::Future<Output = T> + Send + 'static,
    T: Send + 'static,
 {
    /// The task that runs `computation`: see [`AsyncTask::new`].
    fn from(computation: F) -> (task: Self) {
        AsyncTask::new(computation)
    }
}

impl<F, T> vstd::std_specs::convert::FromSpecImpl<F> for AsyncTask<T> where
    F: std::future::Future<Output = T> + Send + 'static,
    T: Send + 'static,
 {
    /// Every conversion opens a channel of its own, so the task that comes
    /// out is no function of the computation that went in.
    open spec fn obeys_from_spec() -> bool {
        false
    }

    open spec fn from_spec(computation: F) -> Self {
        arbitrary()
    }
}

} // verus!
