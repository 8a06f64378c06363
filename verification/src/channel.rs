//! The session channel: a bounded queue of outbound payloads, one per
//! session, carried by tokio's `mpsc` channel.

use vstd::prelude::*;

verus! {

/// Number of payloads a session channel holds before pushes are refused.
pub const SESSION_CHANNEL_CAPACITY: usize = 4;

/// The sending half of tokio's bounded channel. Opaque to the verifier.
/// In contracts a sending half stands for the channel it sends to: two
/// halves are equal when `Sender::same_channel` holds of them.
#[verifier::external_type_specification]
#[verifier::external_body]
#[verifier::reject_recursive_types(T)]
pub struct ExSender<T>(tokio::sync::mpsc::Sender<T>);

/// The receiving half of tokio's bounded channel. Opaque to the verifier.
#[verifier::external_type_specification]
#[verifier::external_body]
#[verifier::reject_recursive_types(T)]
pub struct ExReceiver<T>(tokio::sync::mpsc::Receiver<T>);

/// The bound that the channel behind a sending half was created with.
pub uninterp spec fn channel_bound(handle: tokio::sync::mpsc::Sender<String>) -> nat;

/// What became of one payload offered to a session channel.
#[derive(Clone, Copy, Debug, PartialEq, Eq, Structural)]
pub enum Offer {
    /// The payload was queued.
    Accepted,
    /// The queue held as many payloads as its bound allows.
    Full,
    /// The receiving half is gone.
    Closed,
}

/// Calls `tokio::sync::mpsc::channel`. The source asserts that the bound is
/// positive and at most `usize::MAX >> 3`, and stores it in the channel,
/// where `Sender::max_capacity` reads it back.
#[verifier::external_body]
fn bounded_channel(bound: usize) -> (pair: (
    tokio::sync::mpsc::Sender<String>,
    tokio::sync::mpsc::Receiver<String>,
))
    requires
        0 < bound <= usize::MAX / 8,
    ensures
        channel_bound(pair.0) == bound,
{
    tokio::sync::mpsc::channel(bound)
}

/// Calls `Sender::try_send`. It never waits: it queues the payload, or
/// reports that the queue is full or that the receiving half is gone.
/// Which of the three happens depends on the channel's state at the moment
/// of the call, so nothing is claimed of the result.
#[verifier::external_body]
pub(crate) fn offer(handle: &tokio::sync::mpsc::Sender<String>, payload: String) -> (outcome: Offer) {
    match handle.try_send(payload) {
        Ok(()) => Offer::Accepted,
        Err(tokio::sync::mpsc::error::TrySendError::Full(_)) => Offer::Full,
        Err(tokio::sync::mpsc::error::TrySendError::Closed(_)) => Offer::Closed,
    }
}

/// Calls `Sender::clone`, which gives another sending half of the same
/// channel: `Sender::same_channel` holds of the two. Contracts identify a
/// sending half with the channel it sends to, so the copy counts as equal
/// to the half it was taken from.
#[verifier::external_body]
pub(crate) fn share(handle: &tokio::sync::mpsc::Sender<String>) -> (copy: tokio::sync::mpsc::Sender<
    String,
>)
    ensures
        copy == *handle,
{
    handle.clone()
}

/// Opens the channel of one session.
pub fn open_session_channel() -> (pair: (
    tokio::sync::mpsc::Sender<String>,
    tokio::sync::mpsc::Receiver<String>,
))
    ensures
        channel_bound(pair.0) == SESSION_CHANNEL_CAPACITY,
{
    bounded_channel(SESSION_CHANNEL_CAPACITY)
}

} // verus!
