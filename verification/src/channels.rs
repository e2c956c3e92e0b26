//! The typed handles through which callers reach a junction.
//!
//! A handle holds the identity of its channel, the identity of the junction
//! the channel belongs to, and a sending half of that junction's intake. The
//! three kinds differ in the one operation they offer:
//! - [`SendChannel`] sends a value and does not wait;
//! - [`RecvChannel`] waits for a value;
//! - [`BidirChannel`] sends a value and waits for the result, as one message.
//!
//! A pattern is declared from the members that the handles of its channels
//! give: identity, junction and kind. Every handle can also be stripped down
//! to a token that keeps the identity and the static types but no way to send
//! or receive, and no knowledge of the junction.

use vstd::prelude::*;
use std::marker::PhantomData;
use std::sync::mpsc::Sender;
use crate::ids::{ChannelId, JunctionId};
use crate::message::{ChannelKind, Envelope, Message, SendError};
use crate::pattern::Member;
use crate::reply::{reply_pair, RecvError, ReplyReceiver, ReplySender};
use crate::transport::{another, push};

verus! {

/// What a fire-and-forget send returns for what the intake answered: success
/// when the envelope was queued, else the envelope that came back.
pub fn send_outcome<T, R>(
    sent: Result<(), std::sync::mpsc::SendError<Envelope<T, R>>>,
) -> (res: Result<(), SendError<T, R>>)
    ensures
        sent is Ok ==> res is Ok,
        sent matches Err(e) ==> res == Err::<(), SendError<T, R>>(SendError(e.0)),
{
    match sent {
        Ok(()) => Ok(()),
        Err(e) => Err(SendError(e.0)),
    }
}

/// What queuing a blocking call returns for what the intake answered: the
/// half of the reply pair to wait on when the envelope was queued, else
/// `TransportClosed`.
pub fn request_outcome<T, R>(
    sent: Result<(), std::sync::mpsc::SendError<Envelope<T, R>>>,
    waiting: ReplyReceiver<R>,
) -> (res: Result<ReplyReceiver<R>, RecvError>)
    ensures
        sent is Ok ==> res == Ok::<ReplyReceiver<R>, RecvError>(waiting),
        sent is Err ==> res == Err::<ReplyReceiver<R>, RecvError>(RecvError::TransportClosed),
{
    match sent {
        Ok(()) => Ok(waiting),
        Err(_) => Err(RecvError::TransportClosed),
    }
}

/// Asynchronous, message sending channel.
///
/// Sending on it never blocks the calling thread, but may allow a pattern that
/// the channel is part of to fire.
#[verifier::reject_recursive_types(T)]
#[verifier::reject_recursive_types(R)]
pub struct SendChannel<T, R> {
    id: ChannelId,
    junction_id: JunctionId,
    sender: Sender<Envelope<T, R>>,
}

impl<T, R> Clone for SendChannel<T, R> {
    /// Another handle on the same channel of the same junction.
    fn clone(&self) -> (copy: Self)
        ensures
            copy.id() == self.id(),
            copy.junction_id() == self.junction_id(),
    {
        SendChannel { id: self.id, junction_id: self.junction_id, sender: another(&self.sender) }
    }
}

impl<T, R> SendChannel<T, R> {
    pub closed spec fn spec_id(&self) -> ChannelId {
        self.id
    }

    pub closed spec fn spec_junction_id(&self) -> JunctionId {
        self.junction_id
    }

    /// The sending half of the intake this handle pushes into.
    pub closed spec fn intake(&self) -> Sender<Envelope<T, R>> {
        self.sender
    }

    /// The channel's identity.
    #[verifier::when_used_as_spec(spec_id)]
    pub fn id(&self) -> (id: ChannelId)
        ensures
            id == self.spec_id(),
    {
        self.id
    }

    /// The identity of the junction this channel belongs to.
    #[verifier::when_used_as_spec(spec_junction_id)]
    pub fn junction_id(&self) -> (id: JunctionId)
        ensures
            id == self.spec_junction_id(),
    {
        self.junction_id
    }

    /// This channel as a pattern declaration names it: its identity, its
    /// junction and its kind.
    pub fn member(&self) -> (member: Member)
        ensures
            member == (Member {
                channel: self.id(),
                junction: self.junction_id(),
                kind: ChannelKind::Send,
            }),
    {
        Member { channel: self.id, junction: self.junction_id, kind: ChannelKind::Send }
    }

    /// The token that stands for this channel where no capability is wanted.
    pub fn strip(&self) -> (token: StrippedSendChannel<T>)
        ensures
            token.id() == self.id(),
    {
        StrippedSendChannel::new(self.id)
    }

    /// A handle on channel `id` of junction `junction_id` that pushes into
    /// `sender`.
    pub fn new(id: ChannelId, junction_id: JunctionId, sender: Sender<Envelope<T, R>>) -> (channel:
        SendChannel<T, R>)
        ensures
            channel.id() == id,
            channel.junction_id() == junction_id,
            channel.intake() == sender,
    {
        SendChannel { id, junction_id, sender }
    }

    /// The envelope that sending `value` on this channel puts into the intake.
    pub fn envelope(&self, value: T) -> (envelope: Envelope<T, R>)
        ensures
            envelope == (Envelope { channel_id: self.id(), msg: Message::<T, R>::Value(value) }),
    {
        Envelope { channel_id: self.id, msg: Message::Value(value) }
    }

    /// Sends `value` and returns at once, without waiting for any pattern to
    /// fire.
    ///
    /// Fails only when the junction is gone. The error then holds the envelope
    /// that could not be queued: this channel's identity and the value,
    /// untouched.
    pub fn send(&self, value: T) -> (res: Result<(), SendError<T, R>>)
        ensures
            res matches Err(e) ==> e.0 == (Envelope {
                channel_id: self.id(),
                msg: Message::<T, R>::Value(value),
            }),
    {
        send_outcome(push(&self.sender, self.envelope(value)))
    }
}

/// Stripped down version of [`SendChannel`]: the channel's identity and the
/// type it sends. It cannot send and does not know its junction.
pub struct StrippedSendChannel<T> {
    id: ChannelId,
    send_type: PhantomData<T>,
}

impl<T> StrippedSendChannel<T> {
    pub closed spec fn spec_id(&self) -> ChannelId {
        self.id
    }

    /// The token for channel `id`.
    pub fn new(id: ChannelId) -> (token: StrippedSendChannel<T>)
        ensures
            token.id() == id,
    {
        StrippedSendChannel { id, send_type: PhantomData }
    }

    /// The channel's identity.
    #[verifier::when_used_as_spec(spec_id)]
    pub fn id(&self) -> (id: ChannelId)
        ensures
            id == self.spec_id(),
    {
        self.id
    }
}

/// Synchronous, value receiving channel.
///
/// Nothing is sent through it but the wish to receive: a call blocks the
/// calling thread until a pattern that the channel is part of has fired, and
/// returns the value that the reaction produced for this channel.
#[verifier::reject_recursive_types(T)]
#[verifier::reject_recursive_types(R)]
pub struct RecvChannel<T, R> {
    id: ChannelId,
    junction_id: JunctionId,
    sender: Sender<Envelope<T, R>>,
}

impl<T, R> Clone for RecvChannel<T, R> {
    /// Another handle on the same channel of the same junction.
    fn clone(&self) -> (copy: Self)
        ensures
            copy.id() == self.id(),
            copy.junction_id() == self.junction_id(),
    {
        RecvChannel { id: self.id, junction_id: self.junction_id, sender: another(&self.sender) }
    }
}

impl<T, R> RecvChannel<T, R> {
    pub closed spec fn spec_id(&self) -> ChannelId {
        self.id
    }

    pub closed spec fn spec_junction_id(&self) -> JunctionId {
        self.junction_id
    }

    /// The sending half of the intake this handle pushes into.
    pub closed spec fn intake(&self) -> Sender<Envelope<T, R>> {
        self.sender
    }

    /// The channel's identity.
    #[verifier::when_used_as_spec(spec_id)]
    pub fn id(&self) -> (id: ChannelId)
        ensures
            id == self.spec_id(),
    {
        self.id
    }

    /// The identity of the junction this channel belongs to.
    #[verifier::when_used_as_spec(spec_junction_id)]
    pub fn junction_id(&self) -> (id: JunctionId)
        ensures
            id == self.spec_junction_id(),
    {
        self.junction_id
    }

    /// This channel as a pattern declaration names it: its identity, its
    /// junction and its kind.
    pub fn member(&self) -> (member: Member)
        ensures
            member == (Member {
                channel: self.id(),
                junction: self.junction_id(),
                kind: ChannelKind::Recv,
            }),
    {
        Member { channel: self.id, junction: self.junction_id, kind: ChannelKind::Recv }
    }

    /// The token that stands for this channel where no capability is wanted.
    pub fn strip(&self) -> (token: StrippedRecvChannel<R>)
        ensures
            token.id() == self.id(),
    {
        StrippedRecvChannel::new(self.id)
    }

    /// A handle on channel `id` of junction `junction_id` that pushes into
    /// `sender`.
    pub fn new(id: ChannelId, junction_id: JunctionId, sender: Sender<Envelope<T, R>>) -> (channel:
        RecvChannel<T, R>)
        ensures
            channel.id() == id,
            channel.junction_id() == junction_id,
            channel.intake() == sender,
    {
        RecvChannel { id, junction_id, sender }
    }

    /// The envelope that a receive on this channel puts into the intake: the
    /// reply obligation and nothing else.
    pub fn envelope(&self, reply: ReplySender<R>) -> (envelope: Envelope<T, R>)
        ensures
            envelope == (Envelope { channel_id: self.id(), msg: Message::<T, R>::Request(reply) }),
    {
        Envelope { channel_id: self.id, msg: Message::Request(reply) }
    }

    /// Queues the wish to receive and returns the half of the reply pair on
    /// which the value will arrive, without waiting for it.
    ///
    /// Fails with `TransportClosed`, and with nothing else, when the junction
    /// is gone.
    pub fn request(&self) -> (res: Result<ReplyReceiver<R>, RecvError>)
        ensures
            res matches Err(e) ==> e == RecvError::TransportClosed,
    {
        let (reply, waiting) = reply_pair::<R>();
        request_outcome(push(&self.sender, self.envelope(reply)), waiting)
    }

    /// Receives the value generated by a fired pattern.
    ///
    /// Blocks until a pattern that includes this channel fires. There is no
    /// timeout: the call returns when the value arrives, or fails when the
    /// junction is torn down first: with `TransportClosed` when the wish could
    /// not even be queued, with `ReplyNeverArrived` when it was queued and the
    /// reply pair closed before a value came.
    pub fn recv(&self) -> (res: Result<R, RecvError>)
        ensures
            res matches Err(e) ==> e == RecvError::TransportClosed || e
                == RecvError::ReplyNeverArrived,
    {
        match self.request() {
            Ok(waiting) => waiting.wait(),
            Err(e) => Err(e),
        }
    }
}

/// Stripped down version of [`RecvChannel`]: the channel's identity and the
/// type it receives. It cannot receive and does not know its junction.
pub struct StrippedRecvChannel<R> {
    id: ChannelId,
    recv_type: PhantomData<R>,
}

impl<R> StrippedRecvChannel<R> {
    pub closed spec fn spec_id(&self) -> ChannelId {
        self.id
    }

    /// The token for channel `id`.
    pub fn new(id: ChannelId) -> (token: StrippedRecvChannel<R>)
        ensures
            token.id() == id,
    {
        StrippedRecvChannel { id, recv_type: PhantomData }
    }

    /// The channel's identity.
    #[verifier::when_used_as_spec(spec_id)]
    pub fn id(&self) -> (id: ChannelId)
        ensures
            id == self.spec_id(),
    {
        self.id
    }
}

/// Synchronous, bidirectional message channel.
///
/// A call sends a value and waits for the result of the pattern that consumes
/// it. Unlike a send followed by a receive on two channels, the value and the
/// wish to receive travel as one message: nothing can happen between the two.
#[verifier::reject_recursive_types(T)]
#[verifier::reject_recursive_types(R)]
pub struct BidirChannel<T, R> {
    id: ChannelId,
    junction_id: JunctionId,
    sender: Sender<Envelope<T, R>>,
}

impl<T, R> Clone for BidirChannel<T, R> {
    /// Another handle on the same channel of the same junction.
    fn clone(&self) -> (copy: Self)
        ensures
            copy.id() == self.id(),
            copy.junction_id() == self.junction_id(),
    {
        BidirChannel { id: self.id, junction_id: self.junction_id, sender: another(&self.sender) }
    }
}

impl<T, R> BidirChannel<T, R> {
    pub closed spec fn spec_id(&self) -> ChannelId {
        self.id
    }

    pub closed spec fn spec_junction_id(&self) -> JunctionId {
        self.junction_id
    }

    /// The sending half of the intake this handle pushes into.
    pub closed spec fn intake(&self) -> Sender<Envelope<T, R>> {
        self.sender
    }

    /// The channel's identity.
    #[verifier::when_used_as_spec(spec_id)]
    pub fn id(&self) -> (id: ChannelId)
        ensures
            id == self.spec_id(),
    {
        self.id
    }

    /// The identity of the junction this channel belongs to.
    #[verifier::when_used_as_spec(spec_junction_id)]
    pub fn junction_id(&self) -> (id: JunctionId)
        ensures
            id == self.spec_junction_id(),
    {
        self.junction_id
    }

    /// This channel as a pattern declaration names it: its identity, its
    /// junction and its kind.
    pub fn member(&self) -> (member: Member)
        ensures
            member == (Member {
                channel: self.id(),
                junction: self.junction_id(),
                kind: ChannelKind::Bidir,
            }),
    {
        Member { channel: self.id, junction: self.junction_id, kind: ChannelKind::Bidir }
    }

    /// The token that stands for this channel where no capability is wanted.
    pub fn strip(&self) -> (token: StrippedBidirChannel<T, R>)
        ensures
            token.id() == self.id(),
    {
        StrippedBidirChannel::new(self.id)
    }

    /// A handle on channel `id` of junction `junction_id` that pushes into
    /// `sender`.
    pub fn new(id: ChannelId, junction_id: JunctionId, sender: Sender<Envelope<T, R>>) -> (channel:
        BidirChannel<T, R>)
        ensures
            channel.id() == id,
            channel.junction_id() == junction_id,
            channel.intake() == sender,
    {
        BidirChannel { id, junction_id, sender }
    }

    /// The envelope that a send-then-receive on this channel puts into the
    /// intake: a single message that holds the value and the reply obligation.
    pub fn envelope(&self, value: T, reply: ReplySender<R>) -> (envelope: Envelope<T, R>)
        ensures
            envelope == (Envelope {
                channel_id: self.id(),
                msg: Message::<T, R>::Call(value, reply),
            }),
    {
        Envelope { channel_id: self.id, msg: Message::Call(value, reply) }
    }

    /// Queues `msg` together with the wish to receive and returns the half of
    /// the reply pair on which the result will arrive, without waiting for it.
    ///
    /// Fails with `TransportClosed`, and with nothing else, when the junction
    /// is gone.
    pub fn submit(&self, msg: T) -> (res: Result<ReplyReceiver<R>, RecvError>)
        ensures
            res matches Err(e) ==> e == RecvError::TransportClosed,
    {
        let (reply, waiting) = reply_pair::<R>();
        request_outcome(push(&self.sender, self.envelope(msg, reply)), waiting)
    }

    /// Sends a message and receives the value generated by the pattern that
    /// consumed it.
    ///
    /// Blocks until a pattern that includes this channel fires. There is no
    /// timeout: the call returns when the result arrives, or fails when the
    /// junction is torn down first: with `TransportClosed` when the message
    /// could not even be queued, with `ReplyNeverArrived` when it was queued
    /// and the reply pair closed before a result came.
    pub fn send_recv(&self, msg: T) -> (res: Result<R, RecvError>)
        ensures
            res matches Err(e) ==> e == RecvError::TransportClosed || e
                == RecvError::ReplyNeverArrived,
    {
        match self.submit(msg) {
            Ok(waiting) => waiting.wait(),
            Err(e) => Err(e),
        }
    }
}

/// Stripped down version of [`BidirChannel`]: the channel's identity and the
/// types it sends and receives. It cannot send or receive and does not know its
/// junction.
pub struct StrippedBidirChannel<T, R> {
    id: ChannelId,
    send_type: PhantomData<T>,
    recv_type: PhantomData<R>,
}

impl<T, R> StrippedBidirChannel<T, R> {
    pub closed spec fn spec_id(&self) -> ChannelId {
        self.id
    }

    /// The token for channel `id`.
    pub fn new(id: ChannelId) -> (token: StrippedBidirChannel<T, R>)
        ensures
            token.id() == id,
    {
        StrippedBidirChannel { id, send_type: PhantomData, recv_type: PhantomData }
    }

    /// The channel's identity.
    #[verifier::when_used_as_spec(spec_id)]
    pub fn id(&self) -> (id: ChannelId)
        ensures
            id == self.spec_id(),
    {
        self.id
    }
}

} // verus!
