//! The single-value channel between one background task and the pool that
//! waits for it.

use vstd::prelude::*;

verus! {

/// The standard library's channel sender, carried through as an opaque value.
#[verifier::external_type_specification]
#[verifier::external_body]
#[verifier::reject_recursive_types(T)]
pub struct ExChannelSender<T>(std::sync::mpsc::Sender<T>);

/// The standard library's channel receiver, carried through as an opaque
/// value.
#[verifier::external_type_specification]
#[verifier::external_body]
#[verifier::reject_recursive_types(T)]
pub struct ExChannelReceiver<T>(std::sync::mpsc::Receiver<T>);

/// Calls `std::sync::mpsc::channel`, which makes the two ends of a fresh
/// channel. Nothing is claimed of them.
#[verifier::external_body]
fn open_channel<T>() -> (ends: (std::sync::mpsc::Sender<T>, std::sync::mpsc::Receiver<T>)) {
    std::sync::mpsc::channel()
}

/// Calls `std::sync::mpsc::Sender::send`, which never blocks. The value is
/// dropped if the receiving end is gone; either way nothing is claimed.
#[verifier::external_body]
fn channel_send<T>(channel: &std::sync::mpsc::Sender<T>, value: T) {
    let _ = channel.send(value);
}

/// Calls `std::sync::mpsc::Receiver::try_recv`, which never blocks, and keeps
/// the value if one was waiting. Whether one is waiting depends on how far
/// the sending side has come, so nothing is claimed of the result.
#[verifier::external_body]
fn channel_try_recv<T>(channel: &std::sync::mpsc::Receiver<T>) -> (received: Option<T>) {
    channel.try_recv().ok()
}

/// The sending end: consumed by the one value it delivers.
#[verifier::reject_recursive_types(T)]
pub struct AsyncSender<T> {
    channel: std::sync::mpsc::Sender<T>,
}

/// A single-value endpoint that can be asked, without blocking, whether its
/// task has delivered.
///
/// It hands its value out at most once: after that it is drained and every
/// further attempt returns `None`.
#[verifier::reject_recursive_types(T)]
pub struct AsyncReceiver<T> {
    received: bool,
    channel: std::sync::mpsc::Receiver<T>,
}

/// Makes a fresh channel: a sender and the endpoint its value will arrive
/// at, from which nothing has been received yet.
pub fn channel<T>() -> (ends: (AsyncSender<T>, AsyncReceiver<T>))
    ensures
        !ends.1.is_drained(),
{
    let (sender, receiver) = open_channel();
    (AsyncSender { channel: sender }, AsyncReceiver { received: false, channel: receiver })
}

impl<T> AsyncSender<T> {
    /// Delivers `value` to the paired endpoint and gives up the sender, so
    /// that no second value can follow. If the endpoint is gone, the value
    /// is dropped.
    pub fn send(self, value: T) {
        channel_send(&self.channel, value)
    }
}

impl<T> AsyncReceiver<T> {
    /// Whether the value has already been handed out.
    pub closed spec fn is_drained(&self) -> bool {
        self.received
    }

    /// Whether `self` and `other` are one endpoint at two moments: the same
    /// channel, whatever has been received from it.
    pub closed spec fn same_endpoint(&self, other: &Self) -> bool {
        self.channel == other.channel
    }

    /// Whether the value has already been handed out.
    pub fn drained(&self) -> (drained: bool)
        ensures
            drained == self.is_drained(),
    {
        self.received
    }

    /// Takes the task's value if it has arrived and was not taken before.
    ///
    /// Never blocks. A drained endpoint gives nothing; an attempt that gives
    /// nothing leaves the endpoint exactly as it was; an attempt that gives a
    /// value drains it.
    pub fn try_recv(&mut self) -> (received: Option<T>)
        ensures
            old(self).is_drained() ==> received is None,
            received is None ==> *final(self) == *old(self),
            received is Some ==> final(self).is_drained() && final(self).same_endpoint(old(self)),
    {
        if self.received {
            return None;
        }
        let attempt = channel_try_recv(&self.channel);
        self.settle(attempt)
    }

    /// Settles one receive attempt on the endpoint's channel, given what the
    /// channel gave.
    ///
    /// An endpoint that is not drained hands on what the attempt gave, and is
    /// drained from then on if that was a value. A drained endpoint hands out
    /// nothing, whatever the attempt gave, and stays drained.
    pub fn settle(&mut self, attempt: Option<T>) -> (received: Option<T>)
        ensures
            received == (if old(self).is_drained() {
                None
            } else {
                attempt
            }),
            final(self).is_drained() == (old(self).is_drained() || attempt is Some),
            final(self).same_endpoint(old(self)),
            attempt is None ==> *final(self) == *old(self),
    {
        if self.received {
            return None;
        }
        if attempt.is_some() {
            self.received = true;
        }
        attempt
    }
}

} // verus!
