//! The broadcast and stop channels, carried as crossbeam channel senders.
use crossbeam_channel::Sender;
use vstd::prelude::*;

verus! {

/// The sending half of a crossbeam channel, carried through as an opaque
/// handle.
#[verifier::external_type_specification]
#[verifier::external_body]
#[verifier::reject_recursive_types(T)]
pub struct ExSender<T>(crossbeam_channel::Sender<T>);

/// Relies on `crossbeam_channel::Sender::try_send`: the message is handed to
/// the channel without blocking, and the call fails when the channel is full
/// or its receiver is gone. Which of the two happens depends on the receiving
/// side, so nothing is promised of the outcome.
#[verifier::external_body]
pub(crate) fn offer<T>(tx: &Sender<T>, msg: T) -> (delivered: bool) {
    tx.try_send(msg).is_ok()
}

} // verus!
