//! Trusted boundary to the one-shot completion channels.
//!
//! Each request carries the sending half of a `futures` one-shot channel; the
//! consumer keeps the receiving half inside its response handle. Nothing is
//! assumed about delivery: whether a send is observed depends on whether the
//! receiver is still alive, which the dispatcher neither knows nor cares
//! about (peer handling must not depend on consumer interest).

use vstd::prelude::*;
use futures::channel::oneshot::{Receiver, Sender};

verus! {

#[verifier::external_type_specification]
#[verifier::external_body]
#[verifier::reject_recursive_types(T)]
pub struct ExSender<T>(Sender<T>);

#[verifier::external_type_specification]
#[verifier::external_body]
#[verifier::reject_recursive_types(T)]
pub struct ExReceiver<T>(Receiver<T>);

#[verifier::external_type_specification]
#[verifier::external_body]
pub struct ExCanceled(futures::channel::oneshot::Canceled);

/// Relies on futures::channel::oneshot::channel: returns the two halves of a
/// fresh one-shot channel. Which receiver a sender is paired with is runtime
/// state, so nothing is stated of the result.
#[verifier::external_body]
pub(crate) fn oneshot_channel<T>() -> (Sender<T>, Receiver<T>) {
    futures::channel::oneshot::channel()
}

/// Relies on futures::channel::oneshot::Sender::send: writes the value into
/// the channel, or drops it if the receiver is gone. The dispatcher treats
/// delivery as best-effort, so the outcome is deliberately ignored.
#[verifier::external_body]
pub(crate) fn oneshot_send<T>(sender: Sender<T>, value: T) {
    let _ = sender.send(value);
}

/// Relies on futures::executor::block_on and on the Future impl of
/// futures::channel::oneshot::Receiver: blocks until the paired sender sends
/// a value (returned as `Some`) or is dropped without sending (`None`). What
/// comes back is runtime channel state, so nothing is stated of the result.
#[verifier::external_body]
pub(crate) fn oneshot_wait<T>(receiver: Receiver<T>) -> Option<T> {
    futures::executor::block_on(receiver).ok()
}

} // verus!
