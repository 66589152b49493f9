//! The unbounded queues that connect the stages.
//!
//! The queues are those of `crossbeam_channel`. Any number of stages may put
//! messages into a queue while another takes them out, so nothing that is
//! stated here speaks of what a queue holds at a given moment.

use crossbeam_channel::{Receiver, Sender};
use vstd::prelude::*;

verus! {

/// The sending end of a queue, `crossbeam_channel::Sender`. Its inside is not
/// visible to the verifier.
#[verifier::external_type_specification]
#[verifier::external_body]
#[verifier::reject_recursive_types(T)]
pub struct ExSender<T>(crossbeam_channel::Sender<T>);

/// The receiving end of a queue, `crossbeam_channel::Receiver`. Its inside is
/// not visible to the verifier.
#[verifier::external_type_specification]
#[verifier::external_body]
#[verifier::reject_recursive_types(T)]
pub struct ExReceiver<T>(crossbeam_channel::Receiver<T>);

/// `crossbeam_channel::unbounded` makes a new queue without a limit on its
/// length and returns its two ends. Nothing is claimed of them.
pub assume_specification<T>[ crossbeam_channel::unbounded::<T> ]() -> (ends: (
    crossbeam_channel::Sender<T>,
    crossbeam_channel::Receiver<T>,
));

/// Calls `Sender::try_send`, which never waits, and tells whether the queue
/// took the message. A queue without limit refuses a message only when every
/// receiving end has been dropped; one with a limit also when it is full.
/// Which of the two happens is not claimed.
#[verifier::external_body]
pub(crate) fn send<T>(sender: &Sender<T>, message: T) -> (taken: bool) {
    sender.try_send(message).is_ok()
}

/// Calls `Receiver::try_iter` and collects what it yields: the messages that
/// can be taken from the queue without waiting, oldest first. What they are
/// depends on the other stages, so nothing is claimed of them.
#[verifier::external_body]
pub(crate) fn drain<T>(receiver: &Receiver<T>) -> (messages: Vec<T>) {
    receiver.try_iter().collect()
}

/// Calls `Sender::clone`, which gives one more sending end of the same queue.
/// Nothing is claimed of it.
#[verifier::external_body]
pub(crate) fn another_sender<T>(sender: &Sender<T>) -> (copy: Sender<T>) {
    sender.clone()
}

} // verus!
