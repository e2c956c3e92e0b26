//! Messages and the envelopes that carry them to a junction.

use vstd::prelude::*;
use crate::ids::ChannelId;
use crate::reply::ReplySender;

verus! {

/// The kind of a channel: what its handle sends, and whether its caller waits.
#[derive(Clone, Copy, Debug, PartialEq, Eq, Structural)]
pub enum ChannelKind {
    /// Fire-and-forget: a value, and no reply.
    Send,
    /// Blocking receive: no value, and a reply.
    Recv,
    /// Blocking send-then-receive: a value and a reply.
    Bidir,
}

impl ChannelKind {
    /// Whether messages of this kind carry a value for the reaction.
    pub open spec fn spec_carries_value(self) -> bool {
        self != ChannelKind::Recv
    }

    /// Whether messages of this kind carry a reply obligation.
    pub open spec fn spec_expects_reply(self) -> bool {
        self != ChannelKind::Send
    }

    /// Whether messages of this kind carry a value for the reaction.
    #[verifier::when_used_as_spec(spec_carries_value)]
    pub fn carries_value(self) -> (yes: bool)
        ensures
            yes == self.spec_carries_value(),
    {
        match self {
            ChannelKind::Send => true,
            ChannelKind::Recv => false,
            ChannelKind::Bidir => true,
        }
    }

    /// Whether messages of this kind carry a reply obligation.
    #[verifier::when_used_as_spec(spec_expects_reply)]
    pub fn expects_reply(self) -> (yes: bool)
        ensures
            yes == self.spec_expects_reply(),
    {
        match self {
            ChannelKind::Send => false,
            ChannelKind::Recv => true,
            ChannelKind::Bidir => true,
        }
    }
}

/// What a caller hands to a channel. The three shapes are the three kinds of
/// channel: a value alone, a reply obligation alone, or both at once.
///
/// A send-then-receive is one message that holds the value and the reply
/// obligation together, so the value is never pending without its obligation.
#[derive(Debug)]
#[verifier::reject_recursive_types(R)]
pub enum Message<V, R> {
    /// A value sent and forgotten.
    Value(V),
    /// A caller that waits for a value.
    Request(ReplySender<R>),
    /// A value sent by a caller that waits for the result.
    Call(V, ReplySender<R>),
}

impl<V, R> Message<V, R> {
    /// The value this message carries, if it carries one.
    pub open spec fn value(self) -> Option<V> {
        match self {
            Message::Value(v) => Some(v),
            Message::Request(_) => None,
            Message::Call(v, _) => Some(v),
        }
    }

    /// The reply obligation this message carries, if it carries one.
    pub open spec fn reply(self) -> Option<ReplySender<R>> {
        match self {
            Message::Value(_) => None,
            Message::Request(r) => Some(r),
            Message::Call(_, r) => Some(r),
        }
    }

    pub open spec fn spec_kind(&self) -> ChannelKind {
        match self {
            Message::Value(_) => ChannelKind::Send,
            Message::Request(_) => ChannelKind::Recv,
            Message::Call(_, _) => ChannelKind::Bidir,
        }
    }

    /// The kind of channel that sends messages of this shape.
    #[verifier::when_used_as_spec(spec_kind)]
    pub fn kind(&self) -> (kind: ChannelKind)
        ensures
            kind == self.spec_kind(),
            kind.carries_value() == (self.value() is Some),
            kind.expects_reply() == (self.reply() is Some),
    {
        match self {
            Message::Value(_) => ChannelKind::Send,
            Message::Request(_) => ChannelKind::Recv,
            Message::Call(_, _) => ChannelKind::Bidir,
        }
    }

    /// Takes the message apart into its value and its reply obligation.
    pub fn into_parts(self) -> (parts: (Option<V>, Option<ReplySender<R>>))
        ensures
            parts.0 == self.value(),
            parts.1 == self.reply(),
    {
        match self {
            Message::Value(v) => (Some(v), None),
            Message::Request(r) => (None, Some(r)),
            Message::Call(v, r) => (Some(v), Some(r)),
        }
    }
}

/// The unit exchanged between threads: a message and the channel it was sent
/// on.
#[derive(Debug)]
#[verifier::reject_recursive_types(R)]
pub struct Envelope<V, R> {
    pub channel_id: ChannelId,
    pub msg: Message<V, R>,
}

/// A fire-and-forget send that found the junction's intake closed. It hands
/// back the envelope that could not be queued.
#[derive(Debug)]
#[verifier::reject_recursive_types(R)]
pub struct SendError<V, R>(pub Envelope<V, R>);

} // verus!
