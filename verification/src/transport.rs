//! The transport between caller threads and a junction.
//!
//! Two things cross threads: envelopes, pushed by any number of handles into
//! the junction's intake, and replies, each handed back once through a private
//! pair made for a single call. Both are standard multi-producer channels.
//!
//! This module is the whole boundary to them. Its items are believed, not
//! proved: what such a channel does with a value depends on threads this
//! library does not see, so they promise only what holds of every outcome.

use vstd::prelude::*;
use std::sync::mpsc::{Receiver, Sender};

verus! {

/// The sending half of a standard channel. Nothing is known of its inside.
#[verifier::external_type_specification]
#[verifier::external_body]
#[verifier::reject_recursive_types(T)]
pub struct ExSender<T>(Sender<T>);

/// The receiving half of a standard channel. Nothing is known of its inside.
#[verifier::external_type_specification]
#[verifier::external_body]
#[verifier::reject_recursive_types(T)]
pub struct ExReceiver<T>(Receiver<T>);

/// The standard error of a failed send. Its one public field is the value that
/// could not be sent.
#[verifier::external_type_specification]
#[verifier::reject_recursive_types(T)]
pub struct ExSendError<T>(std::sync::mpsc::SendError<T>);

/// The standard error of a failed receive. It holds nothing.
#[verifier::external_type_specification]
pub struct ExRecvError(std::sync::mpsc::RecvError);

/// `Clone::clone` of a standard `Sender`: another sending half of the same
/// channel. Nothing is claimed of the copy.
#[verifier::external_body]
pub(crate) fn another<T>(sender: &Sender<T>) -> (copy: Sender<T>) {
    sender.clone()
}

/// `std::sync::mpsc::channel`: a new channel, as its two halves. Nothing is
/// claimed of them.
#[verifier::external_body]
pub(crate) fn open<T>() -> (halves: (Sender<T>, Receiver<T>)) {
    std::sync::mpsc::channel()
}

/// `Sender::send`: queues `value` without blocking. It fails only when the
/// receiving half is gone, and the error then hands back the very value that
/// was passed in. Whether it succeeds is decided by other threads.
#[verifier::external_body]
pub(crate) fn push<T>(sender: &Sender<T>, value: T) -> (res: Result<
    (),
    std::sync::mpsc::SendError<T>,
>)
    ensures
        res matches Err(e) ==> e.0 == value,
{
    sender.send(value)
}

/// `Receiver::recv`: blocks until a value arrives or every sending half is
/// gone. Which of the two happens, and which value arrives, is decided by other
/// threads; while a sending half lives and stays silent the call does not
/// return.
#[verifier::external_body]
pub(crate) fn pull<T>(receiver: &Receiver<T>) -> (res: Result<T, std::sync::mpsc::RecvError>) {
    receiver.recv()
}

} // verus!
