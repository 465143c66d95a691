//! Reading from the channels that carry frames and events between threads.

use crossbeam_channel::Receiver;
use std::time::Duration;
use vstd::prelude::*;

verus! {

/// The receiving end of a channel.
#[verifier::external_type_specification]
#[verifier::external_body]
#[verifier::reject_recursive_types(T)]
pub struct ExReceiver<T>(Receiver<T>);

/// What came of waiting for a message.
#[derive(Debug)]
pub enum Received<T> {
    /// A message.
    Item(T),
    /// Nothing, in the time allowed.
    TimedOut,
    /// Nothing, and nothing will: the sending end is gone.
    Disconnected,
}

/// `crossbeam_channel::Receiver::recv_timeout`: waits for a message. Which of the three
/// outcomes it has depends on the sending threads and on time, so nothing is claimed of it.
#[verifier::external_body]
fn recv_timeout<T>(receiver: &Receiver<T>, timeout: Duration) -> (received: Received<T>)
{
    match receiver.recv_timeout(timeout) {
        Ok(item) => Received::Item(item),
        Err(crossbeam_channel::RecvTimeoutError::Timeout) => Received::TimedOut,
        Err(crossbeam_channel::RecvTimeoutError::Disconnected) => Received::Disconnected,
    }
}

/// `crossbeam_channel::Receiver::try_recv`: a message if one is waiting. Whether one is
/// depends on the sending threads, so nothing is claimed of it.
#[verifier::external_body]
fn try_recv<T>(receiver: &Receiver<T>) -> (item: Option<T>)
{
    receiver.try_recv().ok()
}

/// Whether `received` is what a call of `crossbeam_channel::Receiver::recv_timeout` on
/// `receiver`, with `timeout`, came to.
pub closed spec fn came_of_waiting<T>(
    receiver: &Receiver<T>,
    timeout: Duration,
    received: Received<T>,
) -> bool {
    call_ensures(recv_timeout::<T>, (receiver, timeout), received)
}

/// Whether `item` is what a call of `crossbeam_channel::Receiver::try_recv` on `receiver`
/// came to.
pub closed spec fn came_of_looking<T>(receiver: &Receiver<T>, item: Option<T>) -> bool {
    call_ensures(try_recv::<T>, (receiver,), item)
}

/// Wait for a message, `timeout` at most.
pub(crate) fn wait_for<T>(receiver: &Receiver<T>, timeout: Duration) -> (received: Received<T>)
    ensures
        came_of_waiting(receiver, timeout, received),
{
    recv_timeout(receiver, timeout)
}

/// Look for a message that is already there.
pub(crate) fn look_for<T>(receiver: &Receiver<T>) -> (item: Option<T>)
    ensures
        came_of_looking(receiver, item),
{
    try_recv(receiver)
}

} // verus!
