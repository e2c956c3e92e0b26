//! One-shot reply pairs: how a result finds the caller that waits for it.
//!
//! A blocking call makes a pair for itself, sends the one half inside its
//! message and waits on the other. Each half is used at most once, and a half
//! that is dropped unused fails the other cleanly.

use vstd::prelude::*;
use std::sync::mpsc::{Receiver, Sender};
use crate::transport::{open, pull, push};

verus! {

/// Why a blocking receive or send-then-receive gave no value.
#[derive(Clone, Copy, Debug, PartialEq, Eq, Structural)]
pub enum RecvError {
    /// The junction's intake was closed: the request could not even be queued.
    TransportClosed,
    /// The request was queued, but its reply pair closed before a value
    /// arrived.
    ReplyNeverArrived,
}

/// What a blocking caller gets for what came out of its reply pair: the value
/// that arrived, or `ReplyNeverArrived` when the pair closed first.
pub fn reply_outcome<R>(received: Result<R, std::sync::mpsc::RecvError>) -> (res: Result<
    R,
    RecvError,
>)
    ensures
        received matches Ok(value) ==> res == Ok::<R, RecvError>(value),
        received is Err ==> res == Err::<R, RecvError>(RecvError::ReplyNeverArrived),
{
    match received {
        Ok(value) => Ok(value),
        Err(_) => Err(RecvError::ReplyNeverArrived),
    }
}

/// The sending half of a one-shot reply pair. It travels inside the message of
/// the call it belongs to, and delivering through it consumes it.
#[derive(Debug)]
#[verifier::reject_recursive_types(R)]
pub struct ReplySender<R> {
    tx: Sender<R>,
}

/// The receiving half of a one-shot reply pair. It stays with the caller, and
/// waiting on it consumes it.
#[derive(Debug)]
#[verifier::reject_recursive_types(R)]
pub struct ReplyReceiver<R> {
    rx: Receiver<R>,
}

/// A fresh reply pair for one call.
pub fn reply_pair<R>() -> (pair: (ReplySender<R>, ReplyReceiver<R>)) {
    let (tx, rx) = open::<R>();
    (ReplySender { tx }, ReplyReceiver { rx })
}

/// Whether a reply counts as delivered: it does exactly when the send
/// succeeded. A failed send means the caller gave up its receiver; the value
/// is dropped and nothing else happens.
pub fn delivered<R>(sent: Result<(), std::sync::mpsc::SendError<R>>) -> (ok: bool)
    ensures
        ok == (sent is Ok),
{
    match sent {
        Ok(()) => true,
        Err(_) => false,
    }
}

impl<R> ReplySender<R> {
    /// Hands `value` to the caller that waits on the other half. Returns
    /// whether the caller was still there to take it; a caller that went away
    /// is not an error.
    pub fn deliver(self, value: R) -> (ok: bool) {
        delivered(push(&self.tx, value))
    }
}

impl<R> ReplyReceiver<R> {
    /// Blocks until the reply arrives. Fails with `ReplyNeverArrived`, and
    /// with nothing else, when the pair closes first.
    pub fn wait(self) -> (res: Result<R, RecvError>)
        ensures
            res matches Err(e) ==> e == RecvError::ReplyNeverArrived,
    {
        reply_outcome(pull(&self.rx))
    }
}

} // verus!
