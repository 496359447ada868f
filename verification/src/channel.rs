//! The channel on which the workers report to the coordinator.
//!
//! The channel is that of the `crossbeam_channel` crate. What it holds at a
//! given moment depends on what other threads have done, so nothing is
//! claimed of it here: the functions below only make the calls.
use vstd::prelude::*;
use crossbeam_channel::{Receiver, Sender};
use crate::coordinator::Event;
use crate::worker::Match;

verus! {

#[verifier::external_type_specification]
#[verifier::external_body]
#[verifier::reject_recursive_types(T)]
pub struct ExSender<T>(Sender<T>);

#[verifier::external_type_specification]
#[verifier::external_body]
#[verifier::reject_recursive_types(T)]
pub struct ExReceiver<T>(Receiver<T>);

/// Calls `crossbeam_channel::unbounded`, which makes a channel without a
/// limit on what it holds, and returns its two ends.
#[verifier::external_body]
pub(crate) fn open_channel() -> (ends: (Sender<Match>, Receiver<Match>)) {
    crossbeam_channel::unbounded()
}

/// Calls `Sender::clone`, which gives one more sending end of the same
/// channel.
#[verifier::external_body]
pub(crate) fn another_sender(tx: &Sender<Match>) -> (more: Sender<Match>) {
    tx.clone()
}

/// Calls `Sender::send` and says whether the channel took the match. The
/// channel refuses once its receiving end is gone.
#[verifier::external_body]
pub(crate) fn send_match(tx: &Sender<Match>, found: Match) -> (taken: bool) {
    tx.send(found).is_ok()
}

/// Calls `Receiver::recv`, which waits for the next match, and gives what
/// came: a match, or the news that the channel is empty and every sending end
/// is gone.
#[verifier::external_body]
pub(crate) fn next_event(rx: &Receiver<Match>) -> (event: Event) {
    match rx.recv() {
        Ok(found) => Event::Found(found),
        Err(_) => Event::Closed,
    }
}

} // verus!
