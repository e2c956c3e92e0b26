//! Identities of channels and junctions.

use vstd::prelude::*;

verus! {

/// Identity of one channel. Assigned when the channel is created and never
/// changed afterwards; two channels are the same channel exactly when their
/// identities are equal.
#[derive(Clone, Copy, Debug, PartialEq, Eq, Hash, Structural)]
pub struct ChannelId(pub u64);

impl ChannelId {
    /// The identity with the given number.
    pub fn new(raw: u64) -> (id: ChannelId)
        ensures
            id == ChannelId(raw),
    {
        ChannelId(raw)
    }

    /// The number behind this identity.
    pub fn raw(&self) -> (raw: u64)
        ensures
            raw == self.0,
    {
        self.0
    }
}

/// Identity of a junction. Every channel belongs to exactly one junction, and
/// a pattern only joins channels of the junction it is declared for.
#[derive(Clone, Copy, Debug, PartialEq, Eq, Hash, Structural)]
pub struct JunctionId(pub u64);

impl JunctionId {
    /// The identity with the given number.
    pub fn new(raw: u64) -> (id: JunctionId)
        ensures
            id == JunctionId(raw),
    {
        JunctionId(raw)
    }

    /// The number behind this identity.
    pub fn raw(&self) -> (raw: u64)
        ensures
            raw == self.0,
    {
        self.0
    }
}

} // verus!
