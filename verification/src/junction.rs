//! The junction: the single point that owns the patterns and the pending
//! messages, takes the envelopes one at a time, fires what can fire, runs the
//! reactions and routes their results to the callers that wait.
//!
//! Everything a junction does to its state happens inside one call on an
//! exclusive borrow, so the envelopes are processed in one total order and no
//! two reactions of a junction ever overlap.

use vstd::prelude::*;
use std::sync::mpsc::{Receiver, Sender};
use crate::bag::MessageBag;
use crate::engine::{fired, run, Firing};
use crate::ids::{ChannelId, JunctionId};
use crate::laws::{
    law_arrival_keeps_shapes, law_nothing_fires_on_nothing, law_one_arrival_fires_once,
    law_shapes_fix_the_arities, quiescent,
};
use crate::message::{ChannelKind, Envelope, Message};
use crate::model::{are_patterns, arrive, nothing_pending, Fired};
use crate::pattern::{names_as, one_kind_each, reply_arity, value_arity, PatternTable};
use crate::reply::ReplySender;
use crate::transport::{open, pull};

verus! {

/// The values that the consumed messages carry, in the order of the messages.
/// A message that only asks for a reply contributes nothing.
pub open spec fn values_of<V, R>(consumed: Seq<Message<V, R>>) -> Seq<V>
    decreases consumed.len(),
{
    if consumed.len() == 0 {
        Seq::empty()
    } else {
        let earlier = values_of(consumed.drop_last());
        match consumed.last().value() {
            Some(value) => earlier.push(value),
            None => earlier,
        }
    }
}

/// The reply obligations that the consumed messages carry, in the order of the
/// messages. A message that was sent and forgotten contributes nothing.
pub open spec fn replies_of<V, R>(consumed: Seq<Message<V, R>>) -> Seq<ReplySender<R>>
    decreases consumed.len(),
{
    if consumed.len() == 0 {
        Seq::empty()
    } else {
        let earlier = replies_of(consumed.drop_last());
        match consumed.last().reply() {
            Some(reply) => earlier.push(reply),
            None => earlier,
        }
    }
}

/// Takes the consumed messages apart: the values for the reaction and the
/// reply obligations for its results, each in the order of the messages.
pub fn unpack<V, R>(consumed: Vec<Message<V, R>>) -> (parts: (Vec<V>, Vec<ReplySender<R>>))
    ensures
        parts.0@ == values_of(consumed@),
        parts.1@ == replies_of(consumed@),
{
    let mut values: Vec<V> = Vec::new();
    let mut replies: Vec<ReplySender<R>> = Vec::new();
    for msg in it: consumed.into_iter()
        invariant
            it.seq() == consumed@,
            values@ == values_of(consumed@.take(it.index() as int)),
            replies@ == replies_of(consumed@.take(it.index() as int)),
    {
        let ghost k = it.index() as int;
        let (value, reply) = msg.into_parts();
        proof {
            assert(consumed@.take(k + 1).drop_last() =~= consumed@.take(k));
        }
        match value {
            Some(value) => values.push(value),
            None => {},
        }
        match reply {
            Some(reply) => replies.push(reply),
            None => {},
        }
    }
    proof {
        assert(consumed@.take(consumed@.len() as int) =~= consumed@);
    }
    (values, replies)
}

/// The smaller of two lengths.
pub open spec fn least(a: int, b: int) -> int {
    if a <= b {
        a
    } else {
        b
    }
}

/// The routing of results to reply obligations: the first result goes to the
/// first obligation, the second to the second, and so on for as long as there
/// is both an obligation and a result.
pub open spec fn paired<R>(replies: Seq<ReplySender<R>>, results: Seq<R>) -> Seq<
    (ReplySender<R>, R),
> {
    Seq::new(
        least(replies.len() as int, results.len() as int) as nat,
        |k: int| (replies[k], results[k]),
    )
}

/// Routes the results of a reaction to the reply obligations of the messages
/// it consumed, position by position. An obligation for which the reaction
/// returned no result is dropped, so that its caller learns that no reply will
/// arrive; a result for which there is no obligation is discarded.
pub fn route<R>(replies: Vec<ReplySender<R>>, results: Vec<R>) -> (routed: Vec<(ReplySender<R>, R)>)
    ensures
        routed@ == paired(replies@, results@),
{
    let ghost all = results@;
    let mut rest = results;
    let mut stack: Vec<R> = Vec::new();
    while rest.len() > 0
        invariant
            rest@.len() <= all.len(),
            rest@ == all.take(rest@.len() as int),
            stack@.len() == all.len() - rest@.len(),
            forall|j: int| 0 <= j < stack@.len() ==> stack@[j] == all[all.len() - 1 - j],
        decreases rest@.len(),
    {
        let result = rest.pop().unwrap();
        stack.push(result);
    }
    let mut routed: Vec<(ReplySender<R>, R)> = Vec::new();
    for reply in it: replies.into_iter()
        invariant
            it.seq() == replies@,
            routed@ == paired(replies@, all).take(least(it.index() as int, all.len() as int)),
            stack@.len() == all.len() - least(it.index() as int, all.len() as int),
            forall|j: int| 0 <= j < stack@.len() ==> stack@[j] == all[all.len() - 1 - j],
    {
        match stack.pop() {
            Some(result) => routed.push((reply, result)),
            None => {},
        }
    }
    routed
}

/// How many of the outcomes are a delivery.
pub open spec fn deliveries(outcomes: Seq<bool>) -> nat
    decreases outcomes.len(),
{
    if outcomes.len() == 0 {
        0
    } else if outcomes.last() {
        deliveries(outcomes.drop_last()) + 1
    } else {
        deliveries(outcomes.drop_last())
    }
}

/// Counts the deliveries among the outcomes of the attempts: an attempt
/// counts exactly when the caller took the result.
pub fn tally(outcomes: &Vec<bool>) -> (delivered: usize)
    ensures
        delivered == deliveries(outcomes@),
        delivered <= outcomes@.len(),
{
    let mut delivered: usize = 0;
    let mut i: usize = 0;
    while i < outcomes.len()
        invariant
            i <= outcomes.len(),
            delivered <= i,
            delivered == deliveries(outcomes@.take(i as int)),
        decreases outcomes.len() - i,
    {
        proof {
            assert(outcomes@.take(i + 1).drop_last() =~= outcomes@.take(i as int));
        }
        if outcomes[i] {
            delivered += 1;
        }
        i += 1;
    }
    proof {
        assert(outcomes@.take(outcomes@.len() as int) =~= outcomes@);
    }
    delivered
}

/// Delivers each result to the caller that waits for it, in the order given,
/// and returns how many callers took theirs. A caller that has gone away does
/// not stop the others from being served.
///
/// Every pair is attempted once, and the result counts the attempts that
/// succeeded. Which of them succeed is decided by the callers.
pub fn deliver_all<R>(routed: Vec<(ReplySender<R>, R)>) -> (delivered: usize)
    ensures
        delivered <= routed@.len(),
        exists|outcomes: Seq<bool>|
            outcomes.len() == routed@.len() && delivered == #[trigger] deliveries(outcomes),
{
    let mut outcomes: Vec<bool> = Vec::new();
    for pair in it: routed.into_iter()
        invariant
            it.seq() == routed@,
            outcomes@.len() == it.index(),
    {
        let (reply, result) = pair;
        outcomes.push(reply.deliver(result));
    }
    tally(&outcomes)
}

/// What became of one firing.
#[derive(Clone, Copy, Debug, PartialEq, Eq, Structural)]
pub struct Report {
    /// The position of the fired pattern in the table.
    pub pattern: usize,
    /// How many messages the firing consumed: one per channel of the pattern.
    pub consumed: usize,
    /// How many results the reaction owes: one per channel of the pattern
    /// whose caller waits for a reply.
    pub owed: usize,
    /// How many results the reaction returned.
    pub returned: usize,
    /// How many results reached a caller that was still waiting.
    pub delivered: usize,
}

impl Report {
    /// Whether the reaction returned exactly as many results as it owes. A
    /// reaction that does not was declared wrongly: that is a defect of the
    /// program, which no firing repairs.
    pub fn arity_respected(&self) -> (yes: bool)
        ensures
            yes == (self.returned == self.owed),
    {
        self.returned == self.owed
    }
}

/// The consumed messages have the shapes that the kinds of the pattern's
/// channels announce.
pub open spec fn shaped<V, R>(kinds: Seq<ChannelKind>, consumed: Seq<Message<V, R>>) -> bool {
    &&& consumed.len() == kinds.len()
    &&& forall|i: int| 0 <= i < consumed.len() ==> (#[trigger] consumed[i]).kind() == kinds[i]
}

/// Every pending message has the shape that the kind of its channel
/// announces, for every channel that a pattern names.
pub open spec fn tidy<V, R>(
    patterns: Seq<Seq<ChannelId>>,
    kinds: Seq<Seq<ChannelKind>>,
    bag: Map<ChannelId, Seq<Message<V, R>>>,
) -> bool {
    forall|p: int, i: int, n: int|
        0 <= p < patterns.len() && 0 <= i < patterns[p].len() && 0 <= n < bag[patterns[p][i]].len()
            ==> (#[trigger] bag[patterns[p][i]][n]).kind() == kinds[p][i]
}

/// The message does not belong on channel `c`: the patterns name `c` with
/// another kind than the message has. No handle of the channel's true kind
/// sends such a message.
pub open spec fn misdirected<V, R>(
    patterns: Seq<Seq<ChannelId>>,
    kinds: Seq<Seq<ChannelKind>>,
    c: ChannelId,
    msg: Message<V, R>,
) -> bool {
    exists|kind: ChannelKind| #[trigger] names_as(patterns, kinds, c, kind) && kind != msg.kind()
}

/// The reaction keeps the arity of a pattern of these kinds: whatever it is
/// given, it returns one result for each channel whose caller waits for a
/// reply, and none when the pattern only joins fire-and-forget channels.
pub open spec fn keeps_arity<V, R, F: Fn(Vec<V>) -> Vec<R>>(
    reaction: F,
    kinds: Seq<ChannelKind>,
) -> bool {
    forall|values: Vec<V>, results: Vec<R>| #[trigger]
        call_ensures(reaction, (values,), results) ==> results@.len() == reply_arity(kinds)
}

/// Every reaction accepts every list of as many values as its pattern has
/// channels that carry one.
pub open spec fn callable<V, R, F: Fn(Vec<V>) -> Vec<R>>(
    reactions: Seq<F>,
    kinds: Seq<Seq<ChannelKind>>,
) -> bool {
    forall|p: int, values: Vec<V>|
        0 <= p < reactions.len() && values@.len() == value_arity(kinds[p])
            ==> #[trigger] call_requires(reactions[p], (values,))
}

/// `report` tells what became of `firing`: its reaction was called with the
/// values of the consumed messages, in declared order, and with nothing else;
/// the reaction owes one result to each reply obligation among the consumed
/// messages, which are as many as the pattern declares; the report counts the
/// results that this call returned; and no more results were delivered than
/// there were obligations and results to pair.
pub open spec fn answers<V, R, F: Fn(Vec<V>) -> Vec<R>>(
    reactions: Seq<F>,
    kinds: Seq<Seq<ChannelKind>>,
    firing: Fired<Message<V, R>>,
    report: Report,
) -> bool {
    &&& report.pattern == firing.pattern
    &&& report.consumed == firing.consumed.len()
    &&& report.owed == reply_arity(kinds[firing.pattern])
    &&& report.owed == replies_of(firing.consumed).len()
    &&& exists|values: Vec<V>, results: Vec<R>|
        {
            &&& values@ == values_of(firing.consumed)
            &&& #[trigger] call_ensures(reactions[firing.pattern], (values,), results)
            &&& report.returned == results@.len()
        }
    &&& report.delivered <= least(report.owed as int, report.returned as int)
}

/// One report per firing, in order, and each report tells what became of its
/// firing.
pub open spec fn handled<V, R, F: Fn(Vec<V>) -> Vec<R>>(
    reactions: Seq<F>,
    kinds: Seq<Seq<ChannelKind>>,
    firings: Seq<Fired<Message<V, R>>>,
    reports: Seq<Report>,
) -> bool {
    &&& reports.len() == firings.len()
    &&& forall|k: int|
        0 <= k < firings.len() ==> answers(reactions, kinds, firings[k], #[trigger] reports[k])
}

/// A junction: the patterns of one junction identity and the messages that
/// wait for them.
///
/// Between two arrivals no pattern of a junction is firable: whatever could
/// fire has fired. And every pending message has the shape of its channel's
/// kind: a message of another shape is never taken in.
#[verifier::reject_recursive_types(R)]
pub struct Junction<V, R, F> {
    table: PatternTable<F>,
    bag: MessageBag<Message<V, R>>,
}

impl<V, R, F> Junction<V, R, F> {
    /// The channel lists of the patterns, in registration order.
    pub closed spec fn patterns(&self) -> Seq<Seq<ChannelId>> {
        self.table@
    }

    /// The reactions of the patterns, in registration order.
    pub closed spec fn reactions(&self) -> Seq<F> {
        self.table.reactions()
    }

    /// The kinds of the channels of the patterns, in registration order and,
    /// within a pattern, in declared order.
    pub closed spec fn kinds(&self) -> Seq<Seq<ChannelKind>> {
        self.table.kinds()
    }

    /// The pending messages of every channel, oldest first.
    pub closed spec fn pending(&self) -> Map<ChannelId, Seq<Message<V, R>>> {
        self.bag@
    }

    pub closed spec fn spec_id(&self) -> JunctionId {
        self.table.junction_id()
    }

    /// The junction is sound: its table is, no pattern is firable, and every
    /// pending message has the shape of its channel's kind.
    pub closed spec fn wf(&self) -> bool {
        &&& self.table.wf()
        &&& quiescent(self.table@, self.bag@)
        &&& tidy(self.table@, self.table.kinds(), self.bag@)
    }

    /// The junction of the patterns in `table`, with nothing pending. The
    /// table cannot change from here on.
    pub fn new(table: PatternTable<F>) -> (junction: Junction<V, R, F>)
        requires
            table.wf(),
        ensures
            junction.wf(),
            junction.id() == table.junction_id(),
            junction.patterns() == table@,
            junction.reactions() == table.reactions(),
            junction.kinds() == table.kinds(),
            junction.pending() == nothing_pending::<Message<V, R>>(),
            are_patterns(junction.patterns()),
            one_kind_each(junction.patterns(), junction.kinds()),
            junction.reactions().len() == junction.patterns().len(),
    {
        proof {
            table.lemma_wf();
            law_nothing_fires_on_nothing::<Message<V, R>>(table@);
        }
        Junction { table, bag: MessageBag::new() }
    }

    /// The junction's identity.
    #[verifier::when_used_as_spec(spec_id)]
    pub fn id(&self) -> (id: JunctionId)
        ensures
            id == self.spec_id(),
    {
        self.table.junction_id()
    }

    /// How many patterns the junction holds.
    pub fn pattern_count(&self) -> (n: usize)
        ensures
            n == self.patterns().len(),
    {
        self.table.len()
    }

    /// How many messages are pending on channel `c`.
    pub fn pending_on(&self, c: ChannelId) -> (n: usize)
        ensures
            n == self.pending()[c].len(),
    {
        self.bag.count(c)
    }

    /// Takes one envelope: appends its message to the queue of its channel,
    /// then runs the matching engine to completion. Returns the firings, each
    /// with the messages it consumed.
    ///
    /// At most one pattern fires: the earliest registered pattern that names
    /// the channel and is firable once the message is there. What it consumes
    /// has the shapes that its channels' kinds announce.
    ///
    /// A misdirected message is not taken in: the envelope is handed back and
    /// nothing changes.
    pub fn accept(&mut self, envelope: Envelope<V, R>) -> (res: Result<
        Vec<Firing<Message<V, R>>>,
        Envelope<V, R>,
    >)
        requires
            old(self).wf(),
        ensures
            final(self).wf(),
            final(self).id() == old(self).id(),
            final(self).patterns() == old(self).patterns(),
            final(self).reactions() == old(self).reactions(),
            final(self).kinds() == old(self).kinds(),
            quiescent(final(self).patterns(), final(self).pending()),
            tidy(final(self).patterns(), final(self).kinds(), final(self).pending()),
            match res {
                Ok(firings) => {
                    let outcome = arrive(
                        old(self).patterns(),
                        old(self).pending(),
                        envelope.channel_id,
                        envelope.msg,
                    );
                    &&& !misdirected(
                        old(self).patterns(),
                        old(self).kinds(),
                        envelope.channel_id,
                        envelope.msg,
                    )
                    &&& fired(firings@) == outcome.firings
                    &&& final(self).pending() == outcome.bag
                    &&& firings@.len() <= 1
                    &&& forall|k: int|
                        0 <= k < firings@.len() ==> (#[trigger] firings@[k]).pattern
                            < final(self).patterns().len() && shaped(
                            final(self).kinds()[firings@[k].pattern as int],
                            firings@[k].consumed@,
                        )
                },
                Err(back) => {
                    &&& misdirected(
                        old(self).patterns(),
                        old(self).kinds(),
                        envelope.channel_id,
                        envelope.msg,
                    )
                    &&& back == envelope
                    &&& final(self).pending() == old(self).pending()
                },
            },
    {
        let c = envelope.channel_id;
        match self.table.kind_of(c) {
            Some(kind) => {
                if kind != envelope.msg.kind() {
                    assert(names_as(self.table@, self.table.kinds(), c, kind));
                    return Err(envelope);
                }
            },
            None => {},
        }
        proof {
            self.table.lemma_wf();
            law_one_arrival_fires_once(self.table@, self.bag@, c, envelope.msg);
            law_arrival_keeps_shapes(self.table@, self.table.kinds(), self.bag@, c, envelope.msg);
        }
        self.bag.enqueue(c, envelope.msg);
        let firings = run(&self.table, &mut self.bag, c);
        proof {
            assert forall|k: int| 0 <= k < firings@.len() implies (#[trigger] firings@[k]).pattern
                < self.patterns().len() && shaped(
                self.kinds()[firings@[k].pattern as int],
                firings@[k].consumed@,
            ) by {
                assert(fired(firings@)[k] == firings@[k]@);
            }
        }
        Ok(firings)
    }
}

impl<V, R, F: Fn(Vec<V>) -> Vec<R>> Junction<V, R, F> {
    /// Runs the reaction of one firing and pairs its results with the callers
    /// that wait: calls the reaction of the fired pattern with the values of
    /// the consumed messages, in declared order, and routes what it returns,
    /// position by position, to the reply obligations of those messages.
    /// Returns the pairs to deliver and how many results the reaction gave.
    pub fn answer(&self, firing: Firing<Message<V, R>>) -> (out: (Vec<(ReplySender<R>, R)>, usize))
        requires
            self.wf(),
            firing.pattern < self.patterns().len(),
            shaped(self.kinds()[firing.pattern as int], firing.consumed@),
            callable::<V, R, F>(self.reactions(), self.kinds()),
        ensures
            exists|values: Vec<V>, results: Vec<R>|
                {
                    &&& values@ == values_of(firing.consumed@)
                    &&& #[trigger] call_ensures(
                        self.reactions()[firing.pattern as int],
                        (values,),
                        results,
                    )
                    &&& out.0@ == paired(replies_of(firing.consumed@), results@)
                    &&& out.1 == results@.len()
                },
    {
        proof {
            self.table.lemma_wf();
            law_shapes_fix_the_arities(self.kinds()[firing.pattern as int], firing.consumed@);
        }
        let (values, replies) = unpack(firing.consumed);
        let reaction = self.table.pattern(firing.pattern).reaction();
        let ghost given = values;
        let results = reaction(values);
        let ghost got = results;
        let returned = results.len();
        let routed = route(replies, results);
        proof {
            assert(call_ensures(self.reactions()[firing.pattern as int], (given,), got));
        }
        (routed, returned)
    }

    /// Runs the reaction of one firing and delivers its results: what
    /// [`Junction::answer`] pairs is handed to the callers, in declared order.
    ///
    /// A caller that has gone away is passed over in silence. A caller for
    /// whom the reaction returned no result is left without one.
    ///
    /// The junction is borrowed exclusively for the whole call, though nothing
    /// in it changes: no two reactions of one junction run at the same time.
    pub fn react(&mut self, firing: Firing<Message<V, R>>) -> (report: Report)
        requires
            old(self).wf(),
            firing.pattern < old(self).patterns().len(),
            shaped(old(self).kinds()[firing.pattern as int], firing.consumed@),
            callable::<V, R, F>(old(self).reactions(), old(self).kinds()),
        ensures
            *final(self) == *old(self),
            answers(old(self).reactions(), old(self).kinds(), firing@, report),
    {
        proof {
            self.table.lemma_wf();
            law_shapes_fix_the_arities(self.kinds()[firing.pattern as int], firing.consumed@);
        }
        let pattern = firing.pattern;
        let consumed = firing.consumed.len();
        let owed = self.table.pattern(pattern).reply_arity();
        let ghost fired = firing@;
        let (routed, returned) = self.answer(firing);
        proof {
            let (values, results) = choose|values: Vec<V>, results: Vec<R>|
                {
                    &&& values@ == values_of(fired.consumed)
                    &&& #[trigger] call_ensures(self.reactions()[fired.pattern], (values,), results)
                    &&& routed@ == paired(replies_of(fired.consumed), results@)
                    &&& returned == results@.len()
                };
            assert(routed@.len() == least(owed as int, returned as int));
        }
        let delivered = deliver_all(routed);
        Report { pattern, consumed, owed, returned, delivered }
    }

    /// Handles one envelope from arrival to replies: enqueues the message,
    /// runs the matching engine to completion, and for each firing, in order,
    /// runs the reaction and routes its results. Returns one report per
    /// firing.
    ///
    /// A misdirected message is not taken in: the envelope is handed back and
    /// nothing changes.
    pub fn dispatch(&mut self, envelope: Envelope<V, R>) -> (res: Result<
        Vec<Report>,
        Envelope<V, R>,
    >)
        requires
            old(self).wf(),
            callable::<V, R, F>(old(self).reactions(), old(self).kinds()),
        ensures
            final(self).wf(),
            final(self).id() == old(self).id(),
            final(self).patterns() == old(self).patterns(),
            final(self).reactions() == old(self).reactions(),
            final(self).kinds() == old(self).kinds(),
            quiescent(final(self).patterns(), final(self).pending()),
            tidy(final(self).patterns(), final(self).kinds(), final(self).pending()),
            match res {
                Ok(reports) => {
                    let outcome = arrive(
                        old(self).patterns(),
                        old(self).pending(),
                        envelope.channel_id,
                        envelope.msg,
                    );
                    &&& !misdirected(
                        old(self).patterns(),
                        old(self).kinds(),
                        envelope.channel_id,
                        envelope.msg,
                    )
                    &&& final(self).pending() == outcome.bag
                    &&& handled(old(self).reactions(), old(self).kinds(), outcome.firings, reports@)
                },
                Err(back) => {
                    &&& misdirected(
                        old(self).patterns(),
                        old(self).kinds(),
                        envelope.channel_id,
                        envelope.msg,
                    )
                    &&& back == envelope
                    &&& final(self).pending() == old(self).pending()
                },
            },
    {
        let ghost expected = arrive(
            self.patterns(),
            self.pending(),
            envelope.channel_id,
            envelope.msg,
        ).firings;
        let firings = match self.accept(envelope) {
            Ok(firings) => firings,
            Err(back) => {
                return Err(back);
            },
        };
        let ghost settled = *self;
        let mut reports: Vec<Report> = Vec::new();
        for firing in it: firings.into_iter()
            invariant
                it.seq() == firings@,
                fired(firings@) == expected,
                *self == settled,
                self.wf(),
                self.reactions() == old(self).reactions(),
                self.patterns() == old(self).patterns(),
                self.kinds() == old(self).kinds(),
                callable::<V, R, F>(self.reactions(), self.kinds()),
                forall|k: int|
                    0 <= k < firings@.len() ==> (#[trigger] firings@[k]).pattern
                        < self.patterns().len() && shaped(
                        self.kinds()[firings@[k].pattern as int],
                        firings@[k].consumed@,
                    ),
                reports@.len() == it.index(),
                forall|k: int|
                    0 <= k < it.index() ==> answers(
                        self.reactions(),
                        self.kinds(),
                        expected[k],
                        #[trigger] reports@[k],
                    ),
        {
            let report = self.react(firing);
            reports.push(report);
        }
        Ok(reports)
    }
}

/// What one step of the dispatch point came to.
#[derive(Debug)]
#[verifier::reject_recursive_types(R)]
pub enum Step<V, R> {
    /// The intake is closed: every handle is gone and no envelope will come.
    Closed,
    /// The envelope held a misdirected message and was not taken in.
    Refused(Envelope<V, R>),
    /// The envelope was handled; one report per firing.
    Handled(Vec<Report>),
}

/// A junction together with the receiving end of its intake: the dispatch
/// point. Whoever owns it runs the junction, one envelope per step; dropping
/// it tears the junction down, closes the intake and drops every pending
/// message, so that every caller still waiting learns that no reply will
/// arrive.
#[verifier::reject_recursive_types(V)]
#[verifier::reject_recursive_types(R)]
pub struct Dispatcher<V, R, F> {
    junction: Junction<V, R, F>,
    intake: Receiver<Envelope<V, R>>,
}

impl<V, R, F: Fn(Vec<V>) -> Vec<R>> Dispatcher<V, R, F> {
    pub closed spec fn spec_junction(&self) -> &Junction<V, R, F> {
        &self.junction
    }

    /// The dispatch point is sound: its junction is, and every reaction
    /// accepts the values of every firing of its pattern.
    pub open spec fn wf(&self) -> bool {
        &&& self.junction().wf()
        &&& callable::<V, R, F>(self.junction().reactions(), self.junction().kinds())
    }

    /// Starts a junction over the patterns in `table`. Returns its dispatch
    /// point and the sending half of its intake, from which the handles of its
    /// channels are made.
    pub fn new(table: PatternTable<F>) -> (made: (Dispatcher<V, R, F>, Sender<Envelope<V, R>>))
        requires
            table.wf(),
            callable::<V, R, F>(table.reactions(), table.kinds()),
        ensures
            made.0.wf(),
            made.0.junction().id() == table.junction_id(),
            made.0.junction().patterns() == table@,
            made.0.junction().reactions() == table.reactions(),
            made.0.junction().kinds() == table.kinds(),
            made.0.junction().pending() == nothing_pending::<Message<V, R>>(),
    {
        let (sender, intake) = open::<Envelope<V, R>>();
        (Dispatcher { junction: Junction::new(table), intake }, sender)
    }

    /// The junction that this dispatch point runs.
    #[verifier::when_used_as_spec(spec_junction)]
    pub fn junction(&self) -> (junction: &Junction<V, R, F>)
        ensures
            junction == self.spec_junction(),
    {
        &self.junction
    }

    /// Blocks for the next envelope and handles it from arrival to replies.
    ///
    /// Which envelope comes next, and whether one comes at all, is decided by
    /// the callers. Whatever comes, the junction handles exactly that one
    /// envelope, as [`Dispatcher::take`] says.
    pub fn step(&mut self) -> (step: Step<V, R>)
        requires
            old(self).wf(),
        ensures
            final(self).wf(),
            final(self).junction().id() == old(self).junction().id(),
            final(self).junction().patterns() == old(self).junction().patterns(),
            final(self).junction().reactions() == old(self).junction().reactions(),
            final(self).junction().kinds() == old(self).junction().kinds(),
            match step {
                Step::Closed => final(self).junction().pending() == old(self).junction().pending(),
                Step::Refused(envelope) => {
                    &&& misdirected(
                        old(self).junction().patterns(),
                        old(self).junction().kinds(),
                        envelope.channel_id,
                        envelope.msg,
                    )
                    &&& final(self).junction().pending() == old(self).junction().pending()
                },
                Step::Handled(reports) => exists|c: ChannelId, msg: Message<V, R>|
                    {
                        let outcome = #[trigger] arrive(
                            old(self).junction().patterns(),
                            old(self).junction().pending(),
                            c,
                            msg,
                        );
                        &&& !misdirected(
                            old(self).junction().patterns(),
                            old(self).junction().kinds(),
                            c,
                            msg,
                        )
                        &&& final(self).junction().pending() == outcome.bag
                        &&& handled(
                            old(self).junction().reactions(),
                            old(self).junction().kinds(),
                            outcome.firings,
                            reports@,
                        )
                    },
            },
    {
        let received = pull(&self.intake);
        self.take(received)
    }

    /// Handles what came out of the intake: a closed intake ends the run and
    /// changes nothing; an envelope is dispatched.
    pub fn take(
        &mut self,
        received: Result<Envelope<V, R>, std::sync::mpsc::RecvError>,
    ) -> (step: Step<V, R>)
        requires
            old(self).wf(),
        ensures
            final(self).wf(),
            final(self).junction().id() == old(self).junction().id(),
            final(self).junction().patterns() == old(self).junction().patterns(),
            final(self).junction().reactions() == old(self).junction().reactions(),
            final(self).junction().kinds() == old(self).junction().kinds(),
            match received {
                Err(_) => step is Closed && final(self).junction().pending() == old(
                    self,
                ).junction().pending(),
                Ok(envelope) => {
                    let wrong = misdirected(
                        old(self).junction().patterns(),
                        old(self).junction().kinds(),
                        envelope.channel_id,
                        envelope.msg,
                    );
                    let outcome = arrive(
                        old(self).junction().patterns(),
                        old(self).junction().pending(),
                        envelope.channel_id,
                        envelope.msg,
                    );
                    match step {
                        Step::Closed => false,
                        Step::Refused(back) => {
                            &&& wrong
                            &&& back == envelope
                            &&& final(self).junction().pending() == old(self).junction().pending()
                        },
                        Step::Handled(reports) => {
                            &&& !wrong
                            &&& final(self).junction().pending() == outcome.bag
                            &&& handled(
                                old(self).junction().reactions(),
                                old(self).junction().kinds(),
                                outcome.firings,
                                reports@,
                            )
                        },
                    }
                },
            },
    {
        match received {
            Err(_) => Step::Closed,
            Ok(envelope) => match self.junction.dispatch(envelope) {
                Ok(reports) => Step::Handled(reports),
                Err(back) => Step::Refused(back),
            },
        }
    }
}

} // verus!
