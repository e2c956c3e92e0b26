//! The mathematical model of a junction.
//!
//! Pending messages are a map from every channel to the sequence of messages
//! that wait on it, oldest first. The patterns are a sequence, in registration
//! order, of sequences of channels, each in declared order. Matching is a
//! function of these two alone: it never looks inside a message.

use vstd::prelude::*;
use crate::ids::ChannelId;

verus! {

/// The pending messages of a junction that has received nothing.
pub open spec fn nothing_pending<M>() -> Map<ChannelId, Seq<M>> {
    Map::total(|c: ChannelId| Seq::<M>::empty())
}

/// The pending messages after `msg` arrived on channel `c`: it joins the tail
/// of that channel's queue.
pub open spec fn enqueued<M>(bag: Map<ChannelId, Seq<M>>, c: ChannelId, msg: M) -> Map<
    ChannelId,
    Seq<M>,
> {
    bag.insert(c, bag[c].push(msg))
}

/// A pattern names at least one channel and names no channel twice.
pub open spec fn is_pattern(channels: Seq<ChannelId>) -> bool {
    channels.len() > 0 && channels.no_duplicates()
}

/// Every entry of the table is a pattern.
pub open spec fn are_patterns(patterns: Seq<Seq<ChannelId>>) -> bool {
    forall|p: int| 0 <= p < patterns.len() ==> is_pattern(#[trigger] patterns[p])
}

/// Growing a prefix by one element adds that element to what the prefix
/// contains, and nothing else.
pub proof fn lemma_prefix_contains(s: Seq<ChannelId>, i: int, c: ChannelId)
    requires
        0 <= i < s.len(),
    ensures
        s.take(i + 1).contains(c) <==> (s.take(i).contains(c) || s[i] == c),
        s.no_duplicates() ==> !s.take(i).contains(s[i]),
{
    let shorter = s.take(i);
    let longer = s.take(i + 1);
    if shorter.contains(c) {
        let k = choose|k: int| 0 <= k < shorter.len() && shorter[k] == c;
        assert(longer[k] == c);
    }
    if s[i] == c {
        assert(longer[i] == c);
    }
    if longer.contains(c) {
        let k = choose|k: int| 0 <= k < longer.len() && longer[k] == c;
        if k < i {
            assert(shorter[k] == c);
        }
    }
    if s.no_duplicates() && shorter.contains(s[i]) {
        let k = choose|k: int| 0 <= k < shorter.len() && shorter[k] == s[i];
        assert(s[k] == s[i]);
    }
}

/// A pattern is firable when every one of its channels has a pending message.
pub open spec fn firable<M>(channels: Seq<ChannelId>, bag: Map<ChannelId, Seq<M>>) -> bool {
    forall|i: int| 0 <= i < channels.len() ==> bag[#[trigger] channels[i]].len() > 0
}

/// What a firing consumes: the oldest message of each channel of the pattern,
/// in declared order.
pub open spec fn fronts<M>(channels: Seq<ChannelId>, bag: Map<ChannelId, Seq<M>>) -> Seq<M> {
    Seq::new(channels.len(), |i: int| bag[channels[i]].first())
}

/// The pending messages after a firing: each channel of the pattern lost its
/// oldest message, and no other queue changed.
pub open spec fn without_fronts<M>(channels: Seq<ChannelId>, bag: Map<ChannelId, Seq<M>>) -> Map<
    ChannelId,
    Seq<M>,
> {
    Map::total(
        |c: ChannelId|
            if channels.contains(c) {
                bag[c].drop_first()
            } else {
                bag[c]
            },
    )
}

/// The positions of the patterns that name channel `c`, in registration
/// order. These are the candidates that an arrival on `c` re-evaluates.
pub open spec fn candidates(patterns: Seq<Seq<ChannelId>>, c: ChannelId) -> Seq<usize>
    decreases patterns.len(),
{
    if patterns.len() == 0 {
        Seq::empty()
    } else {
        let earlier = candidates(patterns.drop_last(), c);
        if patterns.last().contains(c) {
            earlier.push((patterns.len() - 1) as usize)
        } else {
            earlier
        }
    }
}

/// The candidates of `c` are positions in the table of patterns that name
/// `c`; they ascend strictly; and every pattern that names `c` is among them.
pub proof fn lemma_candidates(patterns: Seq<Seq<ChannelId>>, c: ChannelId)
    requires
        patterns.len() <= usize::MAX,
    ensures
        forall|k: int|
            0 <= k < candidates(patterns, c).len() ==> {
                let p = #[trigger] candidates(patterns, c)[k];
                p < patterns.len() && patterns[p as int].contains(c)
            },
        forall|j: int, k: int|
            0 <= j < k < candidates(patterns, c).len() ==> candidates(patterns, c)[j]
                < candidates(patterns, c)[k],
        forall|p: int|
            0 <= p < patterns.len() && (#[trigger] patterns[p]).contains(c) ==> exists|k: int|
                0 <= k < candidates(patterns, c).len() && candidates(patterns, c)[k] == p,
    decreases patterns.len(),
{
    if patterns.len() > 0 {
        let shorter = patterns.drop_last();
        let earlier = candidates(shorter, c);
        lemma_candidates(shorter, c);
        let all = candidates(patterns, c);
        assert forall|p: int|
            0 <= p < patterns.len() && (#[trigger] patterns[p]).contains(c) implies exists|k: int|
            0 <= k < all.len() && all[k] == p by {
            if p < shorter.len() {
                assert(shorter[p] == patterns[p]);
                let k = choose|k: int| 0 <= k < earlier.len() && earlier[k] == p;
                assert(all[k] == p);
            } else {
                assert(all[all.len() - 1] == p);
            }
        }
        assert forall|k: int| 0 <= k < all.len() implies {
            let p = #[trigger] all[k];
            p < patterns.len() && patterns[p as int].contains(c)
        } by {
            if k < earlier.len() {
                let p = earlier[k];
                assert(shorter[p as int] == patterns[p as int]);
            }
        }
    }
}

/// Pattern `p` is a candidate after an arrival on `c` and can fire: it is in
/// the table, it names `c`, and it is firable.
pub open spec fn eligible<M>(
    patterns: Seq<Seq<ChannelId>>,
    bag: Map<ChannelId, Seq<M>>,
    c: ChannelId,
    p: int,
) -> bool {
    0 <= p < patterns.len() && patterns[p].contains(c) && firable(patterns[p], bag)
}

/// The first eligible pattern at or after position `from`.
pub open spec fn earliest_from<M>(
    patterns: Seq<Seq<ChannelId>>,
    bag: Map<ChannelId, Seq<M>>,
    c: ChannelId,
    from: int,
) -> Option<int>
    decreases patterns.len() - from,
{
    if from < 0 || from >= patterns.len() {
        None
    } else if eligible(patterns, bag, c, from) {
        Some(from)
    } else {
        earliest_from(patterns, bag, c, from + 1)
    }
}

/// The pattern that fires next among those that name `c`: the one registered
/// earliest among the firable ones, or none.
pub open spec fn selected<M>(
    patterns: Seq<Seq<ChannelId>>,
    bag: Map<ChannelId, Seq<M>>,
    c: ChannelId,
) -> Option<int> {
    earliest_from(patterns, bag, c, 0)
}

/// One firing: the position of the pattern in the table and the messages it
/// consumed, in the pattern's declared order.
pub struct Fired<M> {
    pub pattern: int,
    pub consumed: Seq<M>,
}

/// What a run of the matching engine leaves behind: the firings, in the order
/// they happened, and the messages still pending.
pub struct Outcome<M> {
    pub firings: Seq<Fired<M>>,
    pub bag: Map<ChannelId, Seq<M>>,
}

/// `earliest_from` returns an eligible pattern that no eligible pattern
/// between `from` and it precedes, or nothing when none is eligible from
/// `from` on.
pub proof fn lemma_earliest_from<M>(
    patterns: Seq<Seq<ChannelId>>,
    bag: Map<ChannelId, Seq<M>>,
    c: ChannelId,
    from: int,
)
    requires
        0 <= from,
    ensures
        match earliest_from(patterns, bag, c, from) {
            Some(p) => from <= p && eligible(patterns, bag, c, p) && forall|q: int|
                from <= q < p ==> !eligible(patterns, bag, c, q),
            None => forall|q: int| from <= q ==> !eligible(patterns, bag, c, q),
        },
    decreases patterns.len() - from,
{
    if from < patterns.len() && !eligible(patterns, bag, c, from) {
        lemma_earliest_from(patterns, bag, c, from + 1);
    }
}

/// The selected pattern is eligible and is the earliest eligible one; nothing
/// is selected exactly when no pattern is eligible.
pub proof fn lemma_selected<M>(
    patterns: Seq<Seq<ChannelId>>,
    bag: Map<ChannelId, Seq<M>>,
    c: ChannelId,
)
    ensures
        match selected(patterns, bag, c) {
            Some(p) => eligible(patterns, bag, c, p) && forall|q: int|
                0 <= q < p ==> !eligible(patterns, bag, c, q),
            None => forall|q: int| !eligible(patterns, bag, c, q),
        },
{
    lemma_earliest_from(patterns, bag, c, 0);
}

/// Whatever is eligible and preceded by nothing eligible is the selected
/// pattern; where nothing is eligible, nothing is selected.
pub proof fn lemma_selected_is<M>(
    patterns: Seq<Seq<ChannelId>>,
    bag: Map<ChannelId, Seq<M>>,
    c: ChannelId,
    choice: Option<int>,
)
    requires
        match choice {
            Some(p) => eligible(patterns, bag, c, p) && forall|q: int|
                0 <= q < p ==> !eligible(patterns, bag, c, q),
            None => forall|q: int| 0 <= q < patterns.len() ==> !eligible(patterns, bag, c, q),
        },
    ensures
        selected(patterns, bag, c) == choice,
{
    lemma_selected(patterns, bag, c);
}

/// A firable pattern that names `c` finds a message on `c`, and firing it
/// shortens the queue of `c` by exactly that message.
pub proof fn lemma_firing_shortens<M>(
    channels: Seq<ChannelId>,
    bag: Map<ChannelId, Seq<M>>,
    c: ChannelId,
)
    requires
        channels.contains(c),
        firable(channels, bag),
    ensures
        bag[c].len() > 0,
        without_fronts(channels, bag)[c] == bag[c].drop_first(),
        without_fronts(channels, bag)[c].len() == bag[c].len() - 1,
{
    let i = choose|i: int| 0 <= i < channels.len() && channels[i] == c;
    assert(bag[channels[i]].len() > 0);
}

/// Runs the matching engine to completion after an arrival on `c`: as long as
/// a pattern that names `c` is firable, the earliest registered one fires.
pub open spec fn settle<M>(
    patterns: Seq<Seq<ChannelId>>,
    bag: Map<ChannelId, Seq<M>>,
    c: ChannelId,
) -> Outcome<M>
    decreases bag[c].len(),
{
    match selected(patterns, bag, c) {
        None => Outcome { firings: Seq::empty(), bag },
        Some(p) => {
            proof {
                lemma_selected(patterns, bag, c);
                lemma_firing_shortens(patterns[p], bag, c);
            }
            let rest = settle(patterns, without_fronts(patterns[p], bag), c);
            Outcome {
                firings: seq![Fired { pattern: p, consumed: fronts(patterns[p], bag) }]
                    + rest.firings,
                bag: rest.bag,
            }
        },
    }
}

/// What one arrival does: the message joins its channel's queue, then the
/// matching engine runs to completion.
pub open spec fn arrive<M>(
    patterns: Seq<Seq<ChannelId>>,
    bag: Map<ChannelId, Seq<M>>,
    c: ChannelId,
    msg: M,
) -> Outcome<M> {
    settle(patterns, enqueued(bag, c, msg), c)
}

/// What a sequence of arrivals does, one after the other in the order given:
/// all the firings in the order they happened, and what is pending at the end.
pub open spec fn process<M>(
    patterns: Seq<Seq<ChannelId>>,
    bag: Map<ChannelId, Seq<M>>,
    arrivals: Seq<(ChannelId, M)>,
) -> Outcome<M>
    decreases arrivals.len(),
{
    if arrivals.len() == 0 {
        Outcome { firings: Seq::empty(), bag }
    } else {
        let before = process(patterns, bag, arrivals.drop_last());
        let last = arrive(patterns, before.bag, arrivals.last().0, arrivals.last().1);
        Outcome { firings: before.firings + last.firings, bag: last.bag }
    }
}

} // verus!
