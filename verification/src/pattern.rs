//! Join patterns and the table that holds them.
//!
//! A pattern is an ordered set of channels of one junction together with a
//! reaction. The table keeps the patterns in registration order and, for every
//! channel, the positions of the patterns that name it, so that an arrival
//! re-evaluates those patterns only.

use vstd::prelude::*;
use std::collections::HashMap;
use crate::ids::{ChannelId, JunctionId};
use crate::message::ChannelKind;
use crate::model::{are_patterns, candidates, is_pattern, lemma_candidates, lemma_prefix_contains};

verus! {

/// A channel as it is named in a pattern declaration: its identity, the
/// identity of the junction it belongs to, and its kind.
#[derive(Clone, Copy, Debug, PartialEq, Eq, Structural)]
pub struct Member {
    pub channel: ChannelId,
    pub junction: JunctionId,
    pub kind: ChannelKind,
}

/// Why a declaration is not a pattern, or not a pattern of this table.
#[derive(Clone, Copy, Debug, PartialEq, Eq, Structural)]
pub enum PatternError {
    /// The declaration names no channel.
    NoChannels,
    /// The declaration names this channel, which belongs to another junction.
    ForeignChannel(ChannelId),
    /// The declaration names this channel more than once.
    RepeatedChannel(ChannelId),
    /// The pattern was declared for another junction than the table's.
    ForeignPattern,
    /// The pattern names this channel with another kind than a pattern
    /// registered before it.
    KindConflict(ChannelId),
}

/// The channels that a declaration names, in declared order.
pub open spec fn channels_of(members: Seq<Member>) -> Seq<ChannelId> {
    Seq::new(members.len(), |i: int| members[i].channel)
}

/// The kinds of the channels that a declaration names, in declared order.
pub open spec fn kinds_of(members: Seq<Member>) -> Seq<ChannelKind> {
    Seq::new(members.len(), |i: int| members[i].kind)
}

/// How many results a reaction owes to a pattern of these kinds: one for each
/// channel whose caller waits for a reply, and none for a pattern that only
/// joins fire-and-forget channels.
pub open spec fn reply_arity(kinds: Seq<ChannelKind>) -> nat
    decreases kinds.len(),
{
    if kinds.len() == 0 {
        0
    } else if kinds.last().expects_reply() {
        reply_arity(kinds.drop_last()) + 1
    } else {
        reply_arity(kinds.drop_last())
    }
}

/// How many values a reaction is given by a pattern of these kinds: one for
/// each channel whose messages carry a value.
pub open spec fn value_arity(kinds: Seq<ChannelKind>) -> nat
    decreases kinds.len(),
{
    if kinds.len() == 0 {
        0
    } else if kinds.last().carries_value() {
        value_arity(kinds.drop_last()) + 1
    } else {
        value_arity(kinds.drop_last())
    }
}

/// Some pattern of the table names channel `c` with kind `kind`.
pub open spec fn names_as(
    patterns: Seq<Seq<ChannelId>>,
    kinds: Seq<Seq<ChannelKind>>,
    c: ChannelId,
    kind: ChannelKind,
) -> bool {
    exists|p: int, i: int|
        0 <= p < patterns.len() && 0 <= i < patterns[p].len() && #[trigger] patterns[p][i] == c
            && kinds[p][i] == kind
}

/// Every channel of every pattern has a kind, and a channel has the same kind
/// in every pattern that names it.
pub open spec fn one_kind_each(
    patterns: Seq<Seq<ChannelId>>,
    kinds: Seq<Seq<ChannelKind>>,
) -> bool {
    &&& kinds.len() == patterns.len()
    &&& forall|p: int| 0 <= p < patterns.len() ==> (#[trigger] kinds[p]).len() == patterns[p].len()
    &&& forall|p: int, i: int, q: int, j: int|
        0 <= p < patterns.len() && 0 <= i < patterns[p].len() && 0 <= q < patterns.len() && 0 <= j
            < patterns[q].len() && #[trigger] patterns[p][i] == #[trigger] patterns[q][j]
            ==> kinds[p][i] == kinds[q][j]
}

/// The declaration names, at position `i`, a channel that the table already
/// names with another kind.
pub open spec fn conflicts_at(
    patterns: Seq<Seq<ChannelId>>,
    kinds: Seq<Seq<ChannelKind>>,
    channels: Seq<ChannelId>,
    own: Seq<ChannelKind>,
    i: int,
) -> bool {
    &&& 0 <= i < channels.len()
    &&& exists|kind: ChannelKind| #[trigger]
        names_as(patterns, kinds, channels[i], kind) && kind != own[i]
}

/// Position `i` holds the first channel of the declaration whose kind
/// conflicts with the table.
pub open spec fn first_conflict(
    patterns: Seq<Seq<ChannelId>>,
    kinds: Seq<Seq<ChannelKind>>,
    channels: Seq<ChannelId>,
    own: Seq<ChannelKind>,
    i: int,
) -> bool {
    &&& conflicts_at(patterns, kinds, channels, own, i)
    &&& forall|k: int| 0 <= k < i ==> !conflicts_at(patterns, kinds, channels, own, k)
}

/// Position `i` holds the first member that belongs to another junction than
/// `junction`.
pub open spec fn first_foreign(members: Seq<Member>, junction: JunctionId, i: int) -> bool {
    &&& 0 <= i < members.len()
    &&& members[i].junction != junction
    &&& forall|k: int| 0 <= k < i ==> (#[trigger] members[k]).junction == junction
}

/// Every member belongs to `junction`.
pub open spec fn all_of(members: Seq<Member>, junction: JunctionId) -> bool {
    forall|k: int| 0 <= k < members.len() ==> (#[trigger] members[k]).junction == junction
}

/// Position `j` holds the first channel that repeats an earlier one.
pub open spec fn first_repeat(channels: Seq<ChannelId>, j: int) -> bool {
    &&& 0 <= j < channels.len()
    &&& channels.take(j).no_duplicates()
    &&& channels.take(j).contains(channels[j])
}

/// A join pattern: the channels it requires, in declared order, each with its
/// kind, and the reaction that runs when it fires. It names at least one
/// channel and names none twice, and all its channels belong to one junction.
///
/// The reaction is given the values of the consumed messages, in declared
/// order, and owes one result to each channel whose caller waits for a reply,
/// in declared order too.
pub struct Pattern<F> {
    junction_id: JunctionId,
    channels: Vec<ChannelId>,
    kinds: Vec<ChannelKind>,
    reaction: F,
}

impl<F> Pattern<F> {
    #[verifier::type_invariant]
    spec fn well_formed(self) -> bool {
        is_pattern(self.channels@) && self.kinds@.len() == self.channels@.len()
    }

    pub closed spec fn spec_junction_id(&self) -> JunctionId {
        self.junction_id
    }

    pub closed spec fn spec_channels(&self) -> &Vec<ChannelId> {
        &self.channels
    }

    pub closed spec fn spec_kinds(&self) -> &Vec<ChannelKind> {
        &self.kinds
    }

    /// The reaction that runs when the pattern fires.
    pub closed spec fn spec_reaction(&self) -> F {
        self.reaction
    }

    /// Declares a pattern of junction `junction` over `members`, in the order
    /// given, with reaction `reaction`.
    ///
    /// The declaration is refused when it names no channel; else when one of
    /// its channels belongs to another junction, and the error names the first
    /// such channel; else when it repeats a channel, and the error names the
    /// first repetition.
    pub fn new(junction: JunctionId, members: Vec<Member>, reaction: F) -> (res: Result<
        Pattern<F>,
        PatternError,
    >)
        ensures
            match res {
                Ok(pattern) => {
                    &&& members.len() > 0
                    &&& all_of(members@, junction)
                    &&& channels_of(members@).no_duplicates()
                    &&& pattern.junction_id() == junction
                    &&& pattern.channels()@ == channels_of(members@)
                    &&& pattern.kinds()@ == kinds_of(members@)
                    &&& pattern.spec_reaction() == reaction
                },
                Err(PatternError::NoChannels) => members.len() == 0,
                Err(PatternError::ForeignChannel(c)) => exists|i: int|
                    first_foreign(members@, junction, i) && c == members[i].channel,
                Err(PatternError::RepeatedChannel(c)) => {
                    &&& all_of(members@, junction)
                    &&& exists|j: int|
                        first_repeat(channels_of(members@), j) && c == members[j].channel
                },
                Err(PatternError::ForeignPattern) => false,
                Err(PatternError::KindConflict(_)) => false,
            },
    {
        if members.len() == 0 {
            return Err(PatternError::NoChannels);
        }
        let mut channels: Vec<ChannelId> = Vec::new();
        let mut kinds: Vec<ChannelKind> = Vec::new();
        let mut i: usize = 0;
        while i < members.len()
            invariant
                i <= members.len(),
                channels@ == channels_of(members@).take(i as int),
                kinds@ == kinds_of(members@).take(i as int),
                forall|k: int| 0 <= k < i ==> (#[trigger] members[k]).junction == junction,
            decreases members.len() - i,
        {
            if members[i].junction != junction {
                assert(first_foreign(members@, junction, i as int));
                return Err(PatternError::ForeignChannel(members[i].channel));
            }
            channels.push(members[i].channel);
            kinds.push(members[i].kind);
            assert(channels@ =~= channels_of(members@).take(i + 1));
            assert(kinds@ =~= kinds_of(members@).take(i + 1));
            i += 1;
        }
        assert(channels@ =~= channels_of(members@));
        assert(kinds@ =~= kinds_of(members@));
        let mut j: usize = 0;
        while j < channels.len()
            invariant
                j <= channels.len(),
                channels@ == channels_of(members@),
                all_of(members@, junction),
                channels@.take(j as int).no_duplicates(),
            decreases channels.len() - j,
        {
            let mut i: usize = 0;
            while i < j
                invariant
                    i <= j < channels.len(),
                    channels@ == channels_of(members@),
                    all_of(members@, junction),
                    channels@.take(j as int).no_duplicates(),
                    forall|k: int| 0 <= k < i ==> channels[k] != channels[j as int],
                decreases j - i,
            {
                if channels[i] == channels[j] {
                    assert(channels@.take(j as int)[i as int] == channels[j as int]);
                    assert(first_repeat(channels@, j as int));
                    return Err(PatternError::RepeatedChannel(channels[j]));
                }
                i += 1;
            }
            assert(channels@.take(j + 1).no_duplicates()) by {
                let longer = channels@.take(j + 1);
                let shorter = channels@.take(j as int);
                assert forall|a: int, b: int|
                    0 <= a < longer.len() && 0 <= b < longer.len() && a != b implies longer[a]
                    != longer[b] by {
                    if a < j && b < j {
                        assert(shorter[a] != shorter[b]);
                    }
                }
            }
            j += 1;
        }
        assert(channels@.take(channels.len() as int) =~= channels@);
        Ok(Pattern { junction_id: junction, channels, kinds, reaction })
    }

    /// The junction the pattern was declared for.
    #[verifier::when_used_as_spec(spec_junction_id)]
    pub fn junction_id(&self) -> (id: JunctionId)
        ensures
            id == self.spec_junction_id(),
    {
        self.junction_id
    }

    /// The channels the pattern requires, in declared order.
    #[verifier::when_used_as_spec(spec_channels)]
    pub fn channels(&self) -> (channels: &Vec<ChannelId>)
        ensures
            channels == self.spec_channels(),
            is_pattern(channels@),
    {
        proof {
            use_type_invariant(self);
        }
        &self.channels
    }

    /// The kinds of the channels the pattern requires, in declared order.
    #[verifier::when_used_as_spec(spec_kinds)]
    pub fn kinds(&self) -> (kinds: &Vec<ChannelKind>)
        ensures
            kinds == self.spec_kinds(),
            kinds@.len() == self.channels()@.len(),
    {
        proof {
            use_type_invariant(self);
        }
        &self.kinds
    }

    /// How many results the reaction owes at each firing: one for each channel
    /// of the pattern whose caller waits for a reply.
    pub fn reply_arity(&self) -> (n: usize)
        ensures
            n == reply_arity(self.kinds()@),
    {
        let mut n: usize = 0;
        let mut i: usize = 0;
        while i < self.kinds.len()
            invariant
                i <= self.kinds.len(),
                n <= i,
                n == reply_arity(self.kinds@.take(i as int)),
            decreases self.kinds.len() - i,
        {
            proof {
                assert(self.kinds@.take(i + 1).drop_last() =~= self.kinds@.take(i as int));
            }
            if self.kinds[i].expects_reply() {
                n += 1;
            }
            i += 1;
        }
        proof {
            assert(self.kinds@.take(self.kinds@.len() as int) =~= self.kinds@);
        }
        n
    }

    /// How many values the reaction is given at each firing: one for each
    /// channel of the pattern whose messages carry a value.
    pub fn value_arity(&self) -> (n: usize)
        ensures
            n == value_arity(self.kinds()@),
    {
        let mut n: usize = 0;
        let mut i: usize = 0;
        while i < self.kinds.len()
            invariant
                i <= self.kinds.len(),
                n <= i,
                n == value_arity(self.kinds@.take(i as int)),
            decreases self.kinds.len() - i,
        {
            proof {
                assert(self.kinds@.take(i + 1).drop_last() =~= self.kinds@.take(i as int));
            }
            if self.kinds[i].carries_value() {
                n += 1;
            }
            i += 1;
        }
        proof {
            assert(self.kinds@.take(self.kinds@.len() as int) =~= self.kinds@);
        }
        n
    }

    /// How many channels the pattern requires. It is never zero.
    pub fn arity(&self) -> (n: usize)
        ensures
            n == self.channels()@.len(),
            n > 0,
    {
        proof {
            use_type_invariant(self);
        }
        self.channels.len()
    }

    /// The pattern's reaction.
    pub fn reaction(&self) -> (reaction: &F)
        ensures
            *reaction == self.spec_reaction(),
    {
        &self.reaction
    }
}

/// The patterns of one junction, in registration order, with an index from
/// each channel to the patterns that name it.
///
/// Its view is the sequence of the patterns' channel lists. The table is
/// filled before a junction is made from it and cannot change afterwards.
pub struct PatternTable<F> {
    junction_id: JunctionId,
    patterns: Vec<Pattern<F>>,
    touching: HashMap<u64, Vec<usize>>,
}

impl<F> View for PatternTable<F> {
    type V = Seq<Seq<ChannelId>>;

    closed spec fn view(&self) -> Seq<Seq<ChannelId>> {
        Seq::new(self.patterns@.len(), |p: int| self.patterns@[p].channels@)
    }
}

impl<F> PatternTable<F> {
    /// What the index holds for the channel with number `k`.
    spec fn entry(&self, k: u64) -> Seq<usize> {
        if self.touching@.contains_key(k) {
            self.touching@[k]@
        } else {
            Seq::empty()
        }
    }

    /// The table is sound: every entry is a pattern of the table's junction, a
    /// channel has the same kind wherever it is named, and the index lists for
    /// each channel exactly the patterns that name it, in registration order.
    pub closed spec fn wf(&self) -> bool {
        &&& are_patterns(self@)
        &&& one_kind_each(self@, self.kinds())
        &&& forall|p: int|
            0 <= p < self.patterns@.len() ==> (#[trigger] self.patterns@[p]).junction_id
                == self.junction_id
        &&& forall|k: u64| #[trigger] self.entry(k) == candidates(self@, ChannelId(k))
    }

    pub closed spec fn spec_junction_id(&self) -> JunctionId {
        self.junction_id
    }

    /// The reactions of the patterns, in registration order.
    pub closed spec fn reactions(&self) -> Seq<F> {
        Seq::new(self.patterns@.len(), |p: int| self.patterns@[p].reaction)
    }

    /// The kinds of the channels of the patterns, in registration order and,
    /// within a pattern, in declared order.
    pub closed spec fn kinds(&self) -> Seq<Seq<ChannelKind>> {
        Seq::new(self.patterns@.len(), |p: int| self.patterns@[p].kinds@)
    }

    /// A sound table holds patterns only, with a reaction for each and one
    /// kind for each channel.
    pub proof fn lemma_wf(&self)
        requires
            self.wf(),
        ensures
            are_patterns(self@),
            one_kind_each(self@, self.kinds()),
            self.reactions().len() == self@.len(),
    {
    }

    /// The empty table of junction `junction`.
    pub fn new(junction: JunctionId) -> (table: PatternTable<F>)
        ensures
            table.wf(),
            table.junction_id() == junction,
            table@ == Seq::<Seq<ChannelId>>::empty(),
            table.reactions() == Seq::<F>::empty(),
            table.kinds() == Seq::<Seq<ChannelKind>>::empty(),
    {
        let table = PatternTable {
            junction_id: junction,
            patterns: Vec::new(),
            touching: HashMap::new(),
        };
        assert(table@ =~= Seq::<Seq<ChannelId>>::empty());
        assert(table.reactions() =~= Seq::<F>::empty());
        assert(table.kinds() =~= Seq::<Seq<ChannelKind>>::empty());
        table
    }

    /// The junction whose patterns the table holds.
    #[verifier::when_used_as_spec(spec_junction_id)]
    pub fn junction_id(&self) -> (id: JunctionId)
        ensures
            id == self.spec_junction_id(),
    {
        self.junction_id
    }

    /// How many patterns are registered.
    pub fn len(&self) -> (n: usize)
        ensures
            n == self@.len(),
    {
        self.patterns.len()
    }

    /// Registers `pattern` behind all the patterns registered so far and
    /// returns its position.
    ///
    /// A pattern that was declared for another junction is refused; else a
    /// pattern that gives a channel another kind than the table knows for it,
    /// and the error names the first such channel in declared order. A refusal
    /// leaves the table as it was.
    pub fn register(&mut self, pattern: Pattern<F>) -> (res: Result<usize, PatternError>)
        requires
            old(self).wf(),
        ensures
            final(self).wf(),
            final(self).junction_id() == old(self).junction_id(),
            match res {
                Ok(p) => {
                    &&& pattern.junction_id() == old(self).junction_id()
                    &&& forall|i: int|
                        !conflicts_at(
                            old(self)@,
                            old(self).kinds(),
                            pattern.channels()@,
                            pattern.kinds()@,
                            i,
                        )
                    &&& p == old(self)@.len()
                    &&& final(self)@ == old(self)@.push(pattern.channels()@)
                    &&& final(self).reactions() == old(self).reactions().push(
                        pattern.spec_reaction(),
                    )
                    &&& final(self).kinds() == old(self).kinds().push(pattern.kinds()@)
                },
                Err(e) => {
                    &&& final(self)@ == old(self)@
                    &&& final(self).reactions() == old(self).reactions()
                    &&& final(self).kinds() == old(self).kinds()
                    &&& match e {
                        PatternError::ForeignPattern => pattern.junction_id() != old(
                            self,
                        ).junction_id(),
                        PatternError::KindConflict(c) => {
                            &&& pattern.junction_id() == old(self).junction_id()
                            &&& exists|i: int|
                                first_conflict(
                                    old(self)@,
                                    old(self).kinds(),
                                    pattern.channels()@,
                                    pattern.kinds()@,
                                    i,
                                ) && c == pattern.channels()@[i]
                        },
                        _ => false,
                    }
                },
            },
    {
        if pattern.junction_id != self.junction_id {
            return Err(PatternError::ForeignPattern);
        }
        proof {
            use_type_invariant(&pattern);
        }
        let mut m: usize = 0;
        while m < pattern.channels.len()
            invariant
                m <= pattern.channels.len(),
                pattern.kinds@.len() == pattern.channels@.len(),
                self.wf(),
                *self == *old(self),
                pattern.junction_id == self.junction_id,
                forall|k: int|
                    0 <= k < m ==> !conflicts_at(
                        self@,
                        self.kinds(),
                        pattern.channels@,
                        pattern.kinds@,
                        k,
                    ),
            decreases pattern.channels.len() - m,
        {
            let c = pattern.channels[m];
            match self.kind_of(c) {
                Some(kind) => {
                    if kind != pattern.kinds[m] {
                        assert(names_as(self@, self.kinds(), pattern.channels@[m as int], kind));
                        assert(first_conflict(
                            old(self)@,
                            old(self).kinds(),
                            pattern.channels()@,
                            pattern.kinds()@,
                            m as int,
                        ));
                        return Err(PatternError::KindConflict(c));
                    }
                },
                None => {},
            }
            m += 1;
        }
        let ghost before = self@;
        let ghost reactions = self.reactions();
        let ghost kinds = self.kinds();
        let ghost named = pattern.channels@;
        let p = self.patterns.len();
        let mut i: usize = 0;
        while i < pattern.channels.len()
            invariant
                i <= pattern.channels.len(),
                named == pattern.channels@,
                named.no_duplicates(),
                p == self.patterns@.len(),
                self@ == before,
                self.reactions() == reactions,
                self.kinds() == kinds,
                self.junction_id == old(self).junction_id,
                are_patterns(before),
                one_kind_each(before, kinds),
                pattern.kinds@.len() == named.len(),
                forall|k: int| !conflicts_at(before, kinds, named, pattern.kinds@, k),
                forall|q: int|
                    0 <= q < self.patterns@.len() ==> (#[trigger] self.patterns@[q]).junction_id
                        == self.junction_id,
                forall|k: u64| #[trigger]
                    self.entry(k) == if named.take(i as int).contains(ChannelId(k)) {
                        candidates(before, ChannelId(k)).push(p)
                    } else {
                        candidates(before, ChannelId(k))
                    },
            decreases pattern.channels.len() - i,
        {
            let k = pattern.channels[i].0;
            let ghost prior = *self;
            assert(ChannelId(k) == named[i as int]);
            let mut list = match self.touching.remove(&k) {
                Some(list) => list,
                None => Vec::new(),
            };
            list.push(p);
            self.touching.insert(k, list);
            assert forall|other: u64| #[trigger]
                self.entry(other) == if named.take(i + 1).contains(ChannelId(other)) {
                    candidates(before, ChannelId(other)).push(p)
                } else {
                    candidates(before, ChannelId(other))
                } by {
                lemma_prefix_contains(named, i as int, ChannelId(other));
                if other == k {
                    assert(self.entry(other) == prior.entry(other).push(p));
                } else {
                    assert(self.entry(other) == prior.entry(other));
                }
            }
            assert(self@ =~= before);
            assert(self.reactions() =~= reactions);
            assert(self.kinds() =~= kinds);
            i += 1;
        }
        let ghost indexed = *self;
        self.patterns.push(pattern);
        proof {
            let after = self@;
            assert(named.take(named.len() as int) =~= named);
            assert(after =~= before.push(named));
            assert(self.reactions() =~= reactions.push(pattern.reaction));
            assert(self.kinds() =~= kinds.push(pattern.kinds@));
            assert(after.drop_last() =~= before);
            assert(after.last() == named);
            assert forall|q: int| 0 <= q < after.len() implies is_pattern(#[trigger] after[q]) by {
                if q < before.len() {
                    assert(after[q] == before[q]);
                }
            }
            assert forall|k: u64| #[trigger] self.entry(k) == candidates(after, ChannelId(k)) by {
                assert(self.entry(k) == indexed.entry(k));
            }
            let all = self.kinds();
            assert(all.len() == after.len());
            assert forall|q: int| 0 <= q < after.len() implies (#[trigger] all[q]).len()
                == after[q].len() by {
                if q < before.len() {
                    assert(all[q] == kinds[q]);
                    assert(after[q] == before[q]);
                }
            }
            assert forall|q: int, i: int, r: int, j: int|
                0 <= q < after.len() && 0 <= i < after[q].len() && 0 <= r < after.len() && 0 <= j
                    < after[r].len() && #[trigger] after[q][i] == #[trigger] after[r][j] implies all[q][i]
                == all[r][j] by {
                if q < before.len() {
                    assert(after[q] == before[q] && all[q] == kinds[q]);
                }
                if r < before.len() {
                    assert(after[r] == before[r] && all[r] == kinds[r]);
                }
                if q < before.len() && r < before.len() {
                    assert(before[q][i] == before[r][j]);
                } else if q < before.len() {
                    assert(before[q][i] == named[j]);
                    assert(names_as(before, kinds, named[j], kinds[q][i]));
                    assert(!conflicts_at(before, kinds, named, pattern.kinds@, j));
                } else if r < before.len() {
                    assert(before[r][j] == named[i]);
                    assert(names_as(before, kinds, named[i], kinds[r][j]));
                    assert(!conflicts_at(before, kinds, named, pattern.kinds@, i));
                } else {
                    assert(named[i] == named[j]);
                }
            }
        }
        Ok(p)
    }

    /// In a sound table a channel has one kind only.
    proof fn lemma_one_kind(&self, c: ChannelId, kind: ChannelKind)
        requires
            self.wf(),
            names_as(self@, self.kinds(), c, kind),
        ensures
            forall|other: ChannelKind| names_as(self@, self.kinds(), c, other) ==> other == kind,
    {
        let patterns = self@;
        let kinds = self.kinds();
        let (p, i) = choose|p: int, i: int|
            0 <= p < patterns.len() && 0 <= i < patterns[p].len() && #[trigger] patterns[p][i] == c
                && kinds[p][i] == kind;
        assert forall|other: ChannelKind| names_as(patterns, kinds, c, other) implies other
            == kind by {
            let (q, j) = choose|q: int, j: int|
                0 <= q < patterns.len() && 0 <= j < patterns[q].len() && #[trigger] patterns[q][j]
                    == c && kinds[q][j] == other;
            assert(patterns[p][i] == patterns[q][j]);
        }
    }

    /// A channel that no pattern contains is named with no kind.
    proof fn lemma_unnamed(&self, c: ChannelId)
        requires
            forall|p: int| 0 <= p < self@.len() ==> !(#[trigger] self@[p]).contains(c),
        ensures
            forall|kind: ChannelKind| !names_as(self@, self.kinds(), c, kind),
    {
        let patterns = self@;
        assert forall|kind: ChannelKind| !names_as(patterns, self.kinds(), c, kind) by {
            if names_as(patterns, self.kinds(), c, kind) {
                let (p, i) = choose|p: int, i: int|
                    0 <= p < patterns.len() && 0 <= i < patterns[p].len() && #[trigger] patterns[p][i]
                        == c && self.kinds()[p][i] == kind;
                assert(patterns[p].contains(c));
            }
        }
    }

    /// The kind with which the patterns of the table name channel `c`, or
    /// nothing when no pattern names it.
    pub fn kind_of(&self, c: ChannelId) -> (kind: Option<ChannelKind>)
        requires
            self.wf(),
        ensures
            forall|other: ChannelKind| #[trigger]
                names_as(self@, self.kinds(), c, other) <==> kind == Some(other),
            kind is None <==> forall|p: int|
                0 <= p < self@.len() ==> !(#[trigger] self@[p]).contains(c),
    {
        let count = self.patterns.len();
        proof {
            lemma_candidates(self@, c);
            assert(self.entry(c.0) == candidates(self@, ChannelId(c.0)));
        }
        match self.touching.get(&c.0) {
            None => {
                proof {
                    self.lemma_unnamed(c);
                }
                None
            },
            Some(list) => {
                if list.len() == 0 {
                    proof {
                        self.lemma_unnamed(c);
                    }
                    return None;
                }
                let p = list[0];
                assert(self@[p as int].contains(c));
                let pattern = &self.patterns[p];
                assert(pattern.channels@ == self@[p as int]);
                assert(pattern.kinds@ == self.kinds()[p as int]);
                let mut i: usize = 0;
                while i < pattern.channels.len()
                    invariant
                        i <= pattern.channels.len(),
                        self.wf(),
                        p < self@.len(),
                        pattern.channels@ == self@[p as int],
                        pattern.kinds@ == self.kinds()[p as int],
                        pattern.kinds@.len() == pattern.channels@.len(),
                        forall|k: int| 0 <= k < i ==> pattern.channels@[k] != c,
                    decreases pattern.channels.len() - i,
                {
                    if pattern.channels[i] == c {
                        assert(self@[p as int][i as int] == c);
                        proof {
                            self.lemma_one_kind(c, pattern.kinds@[i as int]);
                        }
                        return Some(pattern.kinds[i]);
                    }
                    i += 1;
                }
                assert(false);
                None
            },
        }
    }

    /// The positions of the patterns that name channel `c`, in registration
    /// order; nothing when no pattern names it.
    pub fn candidates(&self, c: ChannelId) -> (list: Option<&Vec<usize>>)
        requires
            self.wf(),
        ensures
            match list {
                Some(list) => list@ == candidates(self@, c),
                None => candidates(self@, c).len() == 0,
            },
    {
        let list = self.touching.get(&c.0);
        assert(self.entry(c.0) == candidates(self@, ChannelId(c.0)));
        list
    }

    /// The pattern registered at position `p`.
    pub fn pattern(&self, p: usize) -> (pattern: &Pattern<F>)
        requires
            p < self@.len(),
        ensures
            pattern.channels()@ == self@[p as int],
            pattern.kinds()@ == self.kinds()[p as int],
            pattern.spec_reaction() == self.reactions()[p as int],
            self.wf() ==> pattern.junction_id() == self.junction_id(),
    {
        &self.patterns[p]
    }
}

} // verus!
