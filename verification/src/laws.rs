//! What holds of every run of the model.
//!
//! Each law is stated over the functions of [`crate::model`], which the
//! contracts of the engine and of the junction refer to, and is proved for
//! every table, every bag and every sequence of arrivals.

use vstd::prelude::*;
use crate::ids::ChannelId;
use crate::junction::{
    answers, keeps_arity, misdirected, replies_of, shaped, tidy, values_of, Report,
};
use crate::message::{ChannelKind, Message};
use crate::pattern::{names_as, one_kind_each, reply_arity, value_arity};
use crate::reply::ReplySender;
use crate::model::{
    are_patterns, arrive, eligible, enqueued, firable, fronts, lemma_firing_shortens,
    lemma_selected, lemma_selected_is, process, selected, settle, without_fronts, Fired, Outcome,
};

verus! {

/// A run is lawful when each of its firings, taken in order, found its pattern
/// firable in the bag as it was at that moment, consumed the oldest message of
/// each channel of the pattern, and left the bag without exactly those
/// messages; and when `end` is the bag after the last firing.
pub open spec fn lawful<M>(
    patterns: Seq<Seq<ChannelId>>,
    bag: Map<ChannelId, Seq<M>>,
    firings: Seq<Fired<M>>,
    end: Map<ChannelId, Seq<M>>,
) -> bool
    decreases firings.len(),
{
    if firings.len() == 0 {
        end == bag
    } else {
        let first = firings.first();
        &&& 0 <= first.pattern < patterns.len()
        &&& firable(patterns[first.pattern], bag)
        &&& first.consumed == fronts(patterns[first.pattern], bag)
        &&& lawful(
            patterns,
            without_fronts(patterns[first.pattern], bag),
            firings.drop_first(),
            end,
        )
    }
}

/// A firing removes exactly one message from each channel of its pattern, the
/// oldest one, and none from any other channel.
pub proof fn law_firing_takes_one_per_channel<M>(
    channels: Seq<ChannelId>,
    bag: Map<ChannelId, Seq<M>>,
    c: ChannelId,
)
    requires
        firable(channels, bag),
    ensures
        channels.contains(c) ==> bag[c].len() >= 1 && without_fronts(channels, bag)[c]
            == bag[c].drop_first() && without_fronts(channels, bag)[c].len() == bag[c].len() - 1,
        !channels.contains(c) ==> without_fronts(channels, bag)[c] == bag[c],
{
    if channels.contains(c) {
        lemma_firing_shortens(channels, bag, c);
    }
}

/// No pattern fires unless every channel it requires has a pending message at
/// that moment, and each firing removes exactly the oldest message of each of
/// those channels: every run of the engine is lawful.
pub proof fn law_firings_need_every_channel<M>(
    patterns: Seq<Seq<ChannelId>>,
    bag: Map<ChannelId, Seq<M>>,
    c: ChannelId,
)
    ensures
        lawful(patterns, bag, settle(patterns, bag, c).firings, settle(patterns, bag, c).bag),
    decreases bag[c].len(),
{
    lemma_selected(patterns, bag, c);
    match selected(patterns, bag, c) {
        None => {},
        Some(p) => {
            lemma_firing_shortens(patterns[p], bag, c);
            let next = without_fronts(patterns[p], bag);
            law_firings_need_every_channel(patterns, next, c);
            let rest = settle(patterns, next, c);
            let all = settle(patterns, bag, c).firings;
            assert(all.first() == Fired { pattern: p, consumed: fronts(patterns[p], bag) });
            assert(all.drop_first() =~= rest.firings);
        },
    }
}

/// No pattern of the table is firable.
pub open spec fn quiescent<M>(patterns: Seq<Seq<ChannelId>>, bag: Map<ChannelId, Seq<M>>) -> bool {
    forall|p: int| 0 <= p < patterns.len() ==> !firable(#[trigger] patterns[p], bag)
}

/// Where nothing is pending, no pattern is firable.
pub proof fn law_nothing_fires_on_nothing<M>(patterns: Seq<Seq<ChannelId>>)
    requires
        are_patterns(patterns),
    ensures
        quiescent(patterns, crate::model::nothing_pending::<M>()),
{
    let bag = crate::model::nothing_pending::<M>();
    assert forall|p: int| 0 <= p < patterns.len() implies !firable(#[trigger] patterns[p], bag) by {
        assert(bag[patterns[p][0]].len() == 0);
    }
}

/// An arrival can only satisfy patterns that name its channel: where no
/// pattern was firable before, every pattern that is firable once the message
/// is there names the channel it arrived on. So the engine loses nothing by
/// looking at those patterns alone.
pub proof fn law_only_candidates_can_fire<M>(
    patterns: Seq<Seq<ChannelId>>,
    bag: Map<ChannelId, Seq<M>>,
    c: ChannelId,
    msg: M,
)
    requires
        quiescent(patterns, bag),
    ensures
        forall|p: int|
            0 <= p < patterns.len() && firable(#[trigger] patterns[p], enqueued(bag, c, msg))
                ==> patterns[p].contains(c),
{
    let arrived = enqueued(bag, c, msg);
    assert forall|p: int|
        0 <= p < patterns.len() && firable(#[trigger] patterns[p], arrived) implies patterns[p].contains(
        c,
    ) by {
        if !patterns[p].contains(c) {
            assert forall|i: int| 0 <= i < patterns[p].len() implies bag[#[trigger] patterns[p][i]].len()
                > 0 by {
                assert(patterns[p][i] != c);
                assert(arrived[patterns[p][i]].len() > 0);
            }
            assert(firable(patterns[p], bag));
        }
    }
}

/// In a junction where no pattern is firable, one arrival fires at most one
/// pattern: either nothing fires, and the message stays pending, or exactly
/// the earliest registered firable pattern that names the channel fires,
/// once. In both cases no pattern is firable afterwards.
pub proof fn law_one_arrival_fires_once<M>(
    patterns: Seq<Seq<ChannelId>>,
    bag: Map<ChannelId, Seq<M>>,
    c: ChannelId,
    msg: M,
)
    requires
        quiescent(patterns, bag),
    ensures
        quiescent(patterns, arrive(patterns, bag, c, msg).bag),
        match selected(patterns, enqueued(bag, c, msg), c) {
            None => arrive(patterns, bag, c, msg) == (Outcome {
                firings: Seq::<Fired<M>>::empty(),
                bag: enqueued(bag, c, msg),
            }),
            Some(p) => arrive(patterns, bag, c, msg) == (Outcome {
                firings: seq![
                    Fired { pattern: p, consumed: fronts(patterns[p], enqueued(bag, c, msg)) },
                ],
                bag: without_fronts(patterns[p], enqueued(bag, c, msg)),
            }),
        },
        arrive(patterns, bag, c, msg).firings.len() <= 1,
{
    let arrived = enqueued(bag, c, msg);
    lemma_selected(patterns, arrived, c);
    match selected(patterns, arrived, c) {
        None => {
            law_only_candidates_can_fire(patterns, bag, c, msg);
            assert forall|q: int| 0 <= q < patterns.len() implies !firable(
                #[trigger] patterns[q],
                arrived,
            ) by {
                assert(!eligible(patterns, arrived, c, q));
            }
        },
        Some(p) => {
            let fired = patterns[p];
            let after = without_fronts(fired, arrived);
            lemma_firing_shortens(fired, arrived, c);
            assert forall|q: int| 0 <= q < patterns.len() implies !firable(
                #[trigger] patterns[q],
                after,
            ) by {
                if firable(patterns[q], after) {
                    assert forall|i: int| 0 <= i < patterns[q].len() implies bag[#[trigger] patterns[q][i]].len()
                        > 0 by {
                        let d = patterns[q][i];
                        assert(after[d].len() > 0);
                        if d != c && fired.contains(d) {
                            lemma_firing_shortens(fired, arrived, d);
                        }
                    }
                    assert(firable(patterns[q], bag));
                }
            }
            lemma_selected_is(patterns, after, c, None);
            let rest = settle(patterns, after, c);
            assert(rest.firings =~= Seq::<Fired<M>>::empty());
            assert(arrive(patterns, bag, c, msg).firings =~= seq![
                Fired { pattern: p, consumed: fronts(fired, arrived) },
            ]);
        },
    }
}

/// The messages that arrived on channel `c`, in arrival order.
pub open spec fn arrived_on<M>(arrivals: Seq<(ChannelId, M)>, c: ChannelId) -> Seq<M>
    decreases arrivals.len(),
{
    if arrivals.len() == 0 {
        Seq::empty()
    } else {
        let earlier = arrived_on(arrivals.drop_last(), c);
        if arrivals.last().0 == c {
            earlier.push(arrivals.last().1)
        } else {
            earlier
        }
    }
}

/// What one firing consumed from channel `c`: the message at the position
/// that `c` has in the fired pattern, or nothing when the pattern does not
/// name `c`.
pub open spec fn taken_from<M>(
    patterns: Seq<Seq<ChannelId>>,
    firing: Fired<M>,
    c: ChannelId,
) -> Seq<M> {
    if 0 <= firing.pattern < patterns.len() && patterns[firing.pattern].contains(c) {
        seq![firing.consumed[patterns[firing.pattern].index_of(c)]]
    } else {
        Seq::empty()
    }
}

/// What the firings consumed from channel `c`, in the order of the firings.
pub open spec fn consumed_from<M>(
    patterns: Seq<Seq<ChannelId>>,
    firings: Seq<Fired<M>>,
    c: ChannelId,
) -> Seq<M>
    decreases firings.len(),
{
    if firings.len() == 0 {
        Seq::empty()
    } else {
        consumed_from(patterns, firings.drop_last(), c) + taken_from(patterns, firings.last(), c)
    }
}

/// What two runs of firings consumed from a channel, one after the other, is
/// what their concatenation consumed from it.
pub proof fn lemma_consumed_from_concat<M>(
    patterns: Seq<Seq<ChannelId>>,
    first: Seq<Fired<M>>,
    second: Seq<Fired<M>>,
    c: ChannelId,
)
    ensures
        consumed_from(patterns, first + second, c) == consumed_from(patterns, first, c)
            + consumed_from(patterns, second, c),
    decreases second.len(),
{
    if second.len() == 0 {
        assert(first + second =~= first);
        assert(consumed_from(patterns, first, c) + Seq::<M>::empty() =~= consumed_from(
            patterns,
            first,
            c,
        ));
    } else {
        lemma_consumed_from_concat(patterns, first, second.drop_last(), c);
        assert((first + second).drop_last() =~= first + second.drop_last());
        assert((first + second).last() == second.last());
        assert(consumed_from(patterns, first, c) + (consumed_from(patterns, second.drop_last(), c)
            + taken_from(patterns, second.last(), c)) =~= (consumed_from(patterns, first, c)
            + consumed_from(patterns, second.drop_last(), c)) + taken_from(
            patterns,
            second.last(),
            c,
        ));
    }
}

/// A run of the engine hands on the messages of every channel unchanged and in
/// order: what was pending on a channel before the run is what the run
/// consumed from it, followed by what is still pending.
pub proof fn lemma_settle_keeps_order<M>(
    patterns: Seq<Seq<ChannelId>>,
    bag: Map<ChannelId, Seq<M>>,
    c: ChannelId,
    d: ChannelId,
)
    ensures
        bag[d] == consumed_from(patterns, settle(patterns, bag, c).firings, d) + settle(
            patterns,
            bag,
            c,
        ).bag[d],
    decreases bag[c].len(),
{
    lemma_selected(patterns, bag, c);
    match selected(patterns, bag, c) {
        None => {
            assert(Seq::<M>::empty() + bag[d] =~= bag[d]);
        },
        Some(p) => {
            let channels = patterns[p];
            lemma_firing_shortens(channels, bag, c);
            let next = without_fronts(channels, bag);
            lemma_settle_keeps_order(patterns, next, c, d);
            let rest = settle(patterns, next, c);
            let firing = Fired { pattern: p, consumed: fronts(channels, bag) };
            let alone = seq![firing];
            lemma_consumed_from_concat(patterns, alone, rest.firings, d);
            assert(alone.drop_last() =~= Seq::<Fired<M>>::empty());
            assert(alone.last() == firing);
            assert(consumed_from(patterns, alone.drop_last(), d) =~= Seq::<M>::empty());
            assert(Seq::<M>::empty() + taken_from(patterns, firing, d) =~= taken_from(
                patterns,
                firing,
                d,
            ));
            assert(consumed_from(patterns, alone, d) =~= taken_from(patterns, firing, d));
            if channels.contains(d) {
                lemma_firing_shortens(channels, bag, d);
                let i = channels.index_of(d);
                assert(channels[i] == d);
                assert(firing.consumed[i] == bag[d].first());
                assert(bag[d] =~= seq![bag[d].first()] + bag[d].drop_first());
            } else {
                assert(Seq::<M>::empty() + bag[d] =~= bag[d]);
            }
            assert(taken_from(patterns, firing, d) + (consumed_from(patterns, rest.firings, d)
                + rest.bag[d]) =~= (taken_from(patterns, firing, d) + consumed_from(
                patterns,
                rest.firings,
                d,
            )) + rest.bag[d]);
        },
    }
}

/// Per-channel first-in, first-out: the messages of a channel are consumed in
/// the order in which they arrived. What was pending on a channel at the start
/// followed by what arrived on it is exactly what the firings consumed from it,
/// in firing order, followed by what is still pending: no message is lost,
/// duplicated, overtaken or altered.
pub proof fn law_per_channel_fifo<M>(
    patterns: Seq<Seq<ChannelId>>,
    bag: Map<ChannelId, Seq<M>>,
    arrivals: Seq<(ChannelId, M)>,
    c: ChannelId,
)
    ensures
        bag[c] + arrived_on(arrivals, c) == consumed_from(
            patterns,
            process(patterns, bag, arrivals).firings,
            c,
        ) + process(patterns, bag, arrivals).bag[c],
    decreases arrivals.len(),
{
    if arrivals.len() == 0 {
        assert(bag[c] + Seq::<M>::empty() =~= Seq::<M>::empty() + bag[c]);
    } else {
        let before = process(patterns, bag, arrivals.drop_last());
        law_per_channel_fifo(patterns, bag, arrivals.drop_last(), c);
        let on = arrivals.last().0;
        let msg = arrivals.last().1;
        let arrived = enqueued(before.bag, on, msg);
        let last = settle(patterns, arrived, on);
        lemma_settle_keeps_order(patterns, arrived, on, c);
        lemma_consumed_from_concat(patterns, before.firings, last.firings, c);
        let so_far = consumed_from(patterns, before.firings, c);
        let now = consumed_from(patterns, last.firings, c);
        let earlier = arrived_on(arrivals.drop_last(), c);
        if on == c {
            assert(bag[c] + earlier.push(msg) =~= (bag[c] + earlier).push(msg));
            assert((so_far + before.bag[c]).push(msg) =~= so_far + before.bag[c].push(msg));
        }
        assert(so_far + (now + last.bag[c]) =~= (so_far + now) + last.bag[c]);
    }
}

/// In a junction that started with nothing pending, what the firings consumed
/// from a channel is a prefix of what arrived on it.
pub proof fn law_consumed_in_send_order<M>(
    patterns: Seq<Seq<ChannelId>>,
    arrivals: Seq<(ChannelId, M)>,
    c: ChannelId,
)
    ensures
        consumed_from(
            patterns,
            process(patterns, crate::model::nothing_pending::<M>(), arrivals).firings,
            c,
        ).is_prefix_of(arrived_on(arrivals, c)),
{
    let start = crate::model::nothing_pending::<M>();
    law_per_channel_fifo(patterns, start, arrivals, c);
    let out = process(patterns, start, arrivals);
    let consumed = consumed_from(patterns, out.firings, c);
    assert(start[c] + arrived_on(arrivals, c) =~= arrived_on(arrivals, c));
    assert((consumed + out.bag[c]).subrange(0, consumed.len() as int) =~= consumed);
}

/// Two bags hold the same number of messages on every channel.
pub open spec fn same_occupancy<M, N>(
    one: Map<ChannelId, Seq<M>>,
    other: Map<ChannelId, Seq<N>>,
) -> bool {
    forall|c: ChannelId| one[c].len() == other[c].len()
}

/// The positions of the fired patterns, in firing order.
pub open spec fn firing_order<M>(firings: Seq<Fired<M>>) -> Seq<int> {
    Seq::new(firings.len(), |k: int| firings[k].pattern)
}

/// The channels of the arrivals, in arrival order.
pub open spec fn arrival_order<M>(arrivals: Seq<(ChannelId, M)>) -> Seq<ChannelId> {
    Seq::new(arrivals.len(), |k: int| arrivals[k].0)
}

/// The firing order of two runs, one after the other, is the firing order of
/// the first followed by that of the second.
pub proof fn lemma_firing_order_concat<M>(first: Seq<Fired<M>>, second: Seq<Fired<M>>)
    ensures
        firing_order(first + second) == firing_order(first) + firing_order(second),
{
    assert(firing_order(first + second) =~= firing_order(first) + firing_order(second));
}

/// Which pattern is selected depends on how many messages wait on each
/// channel, not on what they are.
pub proof fn lemma_selection_ignores_content<M, N>(
    patterns: Seq<Seq<ChannelId>>,
    one: Map<ChannelId, Seq<M>>,
    other: Map<ChannelId, Seq<N>>,
    c: ChannelId,
    from: int,
)
    requires
        same_occupancy(one, other),
        0 <= from,
    ensures
        crate::model::earliest_from(patterns, one, c, from) == crate::model::earliest_from(
            patterns,
            other,
            c,
            from,
        ),
    decreases patterns.len() - from,
{
    if from < patterns.len() {
        let channels = patterns[from];
        assert(firable(channels, one) == firable(channels, other)) by {
            if firable(channels, one) {
                assert forall|i: int| 0 <= i < channels.len() implies other[#[trigger] channels[i]].len()
                    > 0 by {
                    assert(one[channels[i]].len() > 0);
                }
            }
            if firable(channels, other) {
                assert forall|i: int| 0 <= i < channels.len() implies one[#[trigger] channels[i]].len()
                    > 0 by {
                    assert(other[channels[i]].len() > 0);
                }
            }
        }
        if !eligible(patterns, one, c, from) {
            lemma_selection_ignores_content(patterns, one, other, c, from + 1);
        }
    }
}

/// Runs of the engine on bags of the same occupancy fire the same patterns in
/// the same order and leave bags of the same occupancy.
pub proof fn lemma_settle_ignores_content<M, N>(
    patterns: Seq<Seq<ChannelId>>,
    one: Map<ChannelId, Seq<M>>,
    other: Map<ChannelId, Seq<N>>,
    c: ChannelId,
)
    requires
        same_occupancy(one, other),
    ensures
        firing_order(settle(patterns, one, c).firings) == firing_order(
            settle(patterns, other, c).firings,
        ),
        same_occupancy(settle(patterns, one, c).bag, settle(patterns, other, c).bag),
    decreases one[c].len(),
{
    lemma_selection_ignores_content(patterns, one, other, c, 0);
    lemma_selected(patterns, one, c);
    lemma_selected(patterns, other, c);
    match selected(patterns, one, c) {
        None => {
            assert(firing_order(settle(patterns, one, c).firings) =~= firing_order(
                settle(patterns, other, c).firings,
            ));
        },
        Some(p) => {
            let channels = patterns[p];
            lemma_firing_shortens(channels, one, c);
            let next_one = without_fronts(channels, one);
            let next_other = without_fronts(channels, other);
            assert forall|d: ChannelId| next_one[d].len() == next_other[d].len() by {
                assert(one[d].len() == other[d].len());
                if channels.contains(d) {
                    lemma_firing_shortens(channels, one, d);
                    lemma_firing_shortens(channels, other, d);
                }
            }
            lemma_settle_ignores_content(patterns, next_one, next_other, c);
            let first = seq![Fired { pattern: p, consumed: fronts(channels, one) }];
            let first_other = seq![Fired { pattern: p, consumed: fronts(channels, other) }];
            assert(firing_order(first) =~= firing_order(first_other));
            lemma_firing_order_concat(first, settle(patterns, next_one, c).firings);
            lemma_firing_order_concat(first_other, settle(patterns, next_other, c).firings);
        },
    }
}

/// Determinism: a fixed registration order and a fixed arrival order fix the
/// firing sequence. Two runs over the same table whose arrivals name the same
/// channels in the same order, starting from bags of the same occupancy, fire
/// the same patterns in the same order, whatever the messages hold, and end
/// with bags of the same occupancy.
pub proof fn law_firing_sequence_is_determined<M, N>(
    patterns: Seq<Seq<ChannelId>>,
    one: Map<ChannelId, Seq<M>>,
    other: Map<ChannelId, Seq<N>>,
    arrivals: Seq<(ChannelId, M)>,
    others: Seq<(ChannelId, N)>,
)
    requires
        same_occupancy(one, other),
        arrival_order(arrivals) == arrival_order(others),
    ensures
        firing_order(process(patterns, one, arrivals).firings) == firing_order(
            process(patterns, other, others).firings,
        ),
        same_occupancy(process(patterns, one, arrivals).bag, process(patterns, other, others).bag),
    decreases arrivals.len(),
{
    assert(arrivals.len() == arrival_order(arrivals).len());
    assert(others.len() == arrival_order(others).len());
    if arrivals.len() == 0 {
        assert(firing_order(process(patterns, one, arrivals).firings) =~= firing_order(
            process(patterns, other, others).firings,
        ));
    } else {
        let shorter = arrivals.drop_last();
        let shorter_others = others.drop_last();
        assert(arrival_order(shorter) =~= arrival_order(shorter_others)) by {
            assert(arrival_order(shorter).len() == arrival_order(shorter_others).len());
            assert forall|k: int| 0 <= k < arrival_order(shorter).len() implies arrival_order(
                shorter,
            )[k] == arrival_order(shorter_others)[k] by {
                assert(shorter[k] == arrivals[k]);
                assert(shorter_others[k] == others[k]);
                assert(arrival_order(arrivals)[k] == arrivals[k].0);
                assert(arrival_order(others)[k] == others[k].0);
            }
        }
        law_firing_sequence_is_determined(patterns, one, other, shorter, shorter_others);
        let before = process(patterns, one, shorter);
        let before_other = process(patterns, other, shorter_others);
        let c = arrivals.last().0;
        assert(others.last().0 == c) by {
            let k = arrivals.len() - 1;
            assert(arrival_order(arrivals)[k] == arrivals[k].0);
            assert(arrival_order(others)[k] == others[k].0);
        }
        let arrived = enqueued(before.bag, c, arrivals.last().1);
        let arrived_other = enqueued(before_other.bag, c, others.last().1);
        assert forall|d: ChannelId| arrived[d].len() == arrived_other[d].len() by {
            assert(before.bag[d].len() == before_other.bag[d].len());
        }
        lemma_settle_ignores_content(patterns, arrived, arrived_other, c);
        let last = settle(patterns, arrived, c);
        let last_other = settle(patterns, arrived_other, c);
        lemma_firing_order_concat(before.firings, last.firings);
        lemma_firing_order_concat(before_other.firings, last_other.firings);
    }
}

/// Atomicity of a send-then-receive, on arrival: the value and the reply
/// obligation become pending in one step, as one message at the tail of one
/// queue. No state of the bag holds the one without the other, and no other
/// queue changes.
pub proof fn law_call_arrives_whole<V, R>(
    bag: Map<ChannelId, Seq<Message<V, R>>>,
    c: ChannelId,
    value: V,
    reply: ReplySender<R>,
)
    ensures
        enqueued(bag, c, Message::Call(value, reply))[c] == bag[c].push(
            Message::Call(value, reply),
        ),
        enqueued(bag, c, Message::Call(value, reply))[c].last().value() == Some(value),
        enqueued(bag, c, Message::Call(value, reply))[c].last().reply() == Some(reply),
        forall|d: ChannelId|
            d != c ==> #[trigger] enqueued(bag, c, Message::Call(value, reply))[d] == bag[d],
{
}

/// Atomicity of a send-then-receive, on firing: a firing that consumes a
/// message hands its value to the reaction and its reply obligation to the
/// routing of the same firing.
pub proof fn law_value_and_obligation_fire_together<V, R>(consumed: Seq<Message<V, R>>, i: int)
    requires
        0 <= i < consumed.len(),
    ensures
        consumed[i].value() matches Some(value) ==> values_of(consumed).contains(value),
        consumed[i].reply() matches Some(reply) ==> replies_of(consumed).contains(reply),
    decreases consumed.len(),
{
    let earlier = consumed.drop_last();
    if i < consumed.len() - 1 {
        law_value_and_obligation_fire_together(earlier, i);
        assert(earlier[i] == consumed[i]);
        if let Some(value) = consumed[i].value() {
            let k = choose|k: int| 0 <= k < values_of(earlier).len() && values_of(earlier)[k] == value;
            assert(values_of(consumed)[k] == value);
        }
        if let Some(reply) = consumed[i].reply() {
            let k = choose|k: int|
                0 <= k < replies_of(earlier).len() && replies_of(earlier)[k] == reply;
            assert(replies_of(consumed)[k] == reply);
        }
    } else {
        if let Some(value) = consumed[i].value() {
            assert(values_of(consumed)[values_of(earlier).len() as int] == value);
        }
        if let Some(reply) = consumed[i].reply() {
            assert(replies_of(consumed)[replies_of(earlier).len() as int] == reply);
        }
    }
}

/// Messages of the shapes that a pattern's kinds announce carry exactly as
/// many reply obligations as the pattern owes results, and exactly as many
/// values as its reaction is declared to take.
pub proof fn law_shapes_fix_the_arities<V, R>(
    kinds: Seq<ChannelKind>,
    consumed: Seq<Message<V, R>>,
)
    requires
        shaped(kinds, consumed),
    ensures
        replies_of(consumed).len() == reply_arity(kinds),
        values_of(consumed).len() == value_arity(kinds),
    decreases consumed.len(),
{
    if consumed.len() > 0 {
        let fewer = consumed.drop_last();
        let shorter = kinds.drop_last();
        assert(shaped(shorter, fewer)) by {
            assert forall|i: int| 0 <= i < fewer.len() implies (#[trigger] fewer[i]).kind()
                == shorter[i] by {
                assert(fewer[i] == consumed[i]);
            }
        }
        law_shapes_fix_the_arities(shorter, fewer);
        assert(consumed.last().kind() == kinds.last());
    }
}

/// The arity contract: when the reaction of a pattern keeps the pattern's
/// arity, it returns exactly one result for each caller that waits, so that no
/// caller is left without a result and no result is left over.
pub proof fn law_kept_arity_answers_every_caller<V, R, F: Fn(Vec<V>) -> Vec<R>>(
    reactions: Seq<F>,
    kinds: Seq<Seq<ChannelKind>>,
    firing: Fired<Message<V, R>>,
    report: Report,
)
    requires
        answers(reactions, kinds, firing, report),
        keeps_arity::<V, R, F>(reactions[firing.pattern], kinds[firing.pattern]),
    ensures
        report.returned == report.owed,
        report.returned == replies_of(firing.consumed).len(),
{
}

/// A run of the engine keeps the shapes: when every pending message has the
/// shape of its channel's kind, so has every message that a firing consumes,
/// position by position, and so has every message still pending afterwards.
pub proof fn law_run_keeps_shapes<V, R>(
    patterns: Seq<Seq<ChannelId>>,
    kinds: Seq<Seq<ChannelKind>>,
    bag: Map<ChannelId, Seq<Message<V, R>>>,
    c: ChannelId,
)
    requires
        one_kind_each(patterns, kinds),
        tidy(patterns, kinds, bag),
    ensures
        tidy(patterns, kinds, settle(patterns, bag, c).bag),
        forall|k: int|
            0 <= k < settle(patterns, bag, c).firings.len() ==> {
                let firing = #[trigger] settle(patterns, bag, c).firings[k];
                0 <= firing.pattern < patterns.len() && shaped(
                    kinds[firing.pattern],
                    firing.consumed,
                )
            },
    decreases bag[c].len(),
{
    lemma_selected(patterns, bag, c);
    match selected(patterns, bag, c) {
        None => {},
        Some(p) => {
            let channels = patterns[p];
            lemma_firing_shortens(channels, bag, c);
            let next = without_fronts(channels, bag);
            let consumed = fronts(channels, bag);
            assert(shaped(kinds[p], consumed)) by {
                assert forall|i: int| 0 <= i < consumed.len() implies (#[trigger] consumed[i]).kind()
                    == kinds[p][i] by {
                    assert(bag[channels[i]].len() > 0);
                    assert(bag[patterns[p][i]][0].kind() == kinds[p][i]);
                }
            }
            assert(tidy(patterns, kinds, next)) by {
                assert forall|q: int, j: int, n: int|
                    0 <= q < patterns.len() && 0 <= j < patterns[q].len() && 0 <= n
                        < next[patterns[q][j]].len() implies (#[trigger] next[patterns[q][j]][n]).kind()
                    == kinds[q][j] by {
                    let d = patterns[q][j];
                    if channels.contains(d) {
                        lemma_firing_shortens(channels, bag, d);
                        assert(next[d][n] == bag[d][n + 1]);
                        assert(bag[patterns[q][j]][n + 1].kind() == kinds[q][j]);
                    } else {
                        assert(bag[patterns[q][j]][n].kind() == kinds[q][j]);
                    }
                }
            }
            law_run_keeps_shapes(patterns, kinds, next, c);
            let rest = settle(patterns, next, c).firings;
            let all = settle(patterns, bag, c).firings;
            assert forall|k: int| 0 <= k < all.len() implies {
                let firing = #[trigger] all[k];
                0 <= firing.pattern < patterns.len() && shaped(
                    kinds[firing.pattern],
                    firing.consumed,
                )
            } by {
                if k > 0 {
                    assert(all[k] == rest[k - 1]);
                }
            }
        },
    }
}

/// An arrival keeps the shapes: a message that is not misdirected joins the
/// pending messages without breaking their shapes, and every firing that
/// follows consumes messages of the shapes its pattern declares.
pub proof fn law_arrival_keeps_shapes<V, R>(
    patterns: Seq<Seq<ChannelId>>,
    kinds: Seq<Seq<ChannelKind>>,
    bag: Map<ChannelId, Seq<Message<V, R>>>,
    c: ChannelId,
    msg: Message<V, R>,
)
    requires
        one_kind_each(patterns, kinds),
        tidy(patterns, kinds, bag),
        !misdirected(patterns, kinds, c, msg),
    ensures
        tidy(patterns, kinds, arrive(patterns, bag, c, msg).bag),
        forall|k: int|
            0 <= k < arrive(patterns, bag, c, msg).firings.len() ==> {
                let firing = #[trigger] arrive(patterns, bag, c, msg).firings[k];
                0 <= firing.pattern < patterns.len() && shaped(
                    kinds[firing.pattern],
                    firing.consumed,
                )
            },
{
    let arrived = enqueued(bag, c, msg);
    assert(tidy(patterns, kinds, arrived)) by {
        assert forall|q: int, j: int, n: int|
            0 <= q < patterns.len() && 0 <= j < patterns[q].len() && 0 <= n
                < arrived[patterns[q][j]].len() implies (#[trigger] arrived[patterns[q][j]][n]).kind()
            == kinds[q][j] by {
            let d = patterns[q][j];
            if d == c && n == bag[c].len() {
                assert(names_as(patterns, kinds, c, kinds[q][j]));
            } else {
                assert(bag[patterns[q][j]][n].kind() == kinds[q][j]);
            }
        }
    }
    law_run_keeps_shapes(patterns, kinds, arrived, c);
}

} // verus!
