//! The matching engine.
//!
//! Given the table and the bag, the engine decides which pattern fires next
//! and which messages it consumes. Several patterns may be firable at once:
//! the one registered earliest fires. Within a pattern each channel gives up
//! its oldest message. After a firing the engine looks again, until no
//! candidate is firable.

use vstd::prelude::*;
use crate::bag::MessageBag;
use crate::ids::ChannelId;
use crate::model::{
    candidates, eligible, firable, fronts, lemma_candidates, lemma_firing_shortens,
    lemma_prefix_contains, lemma_selected, lemma_selected_is, selected, settle, without_fronts,
    Fired,
};
use crate::pattern::PatternTable;

verus! {

/// One firing: the position of the fired pattern in the table and the messages
/// it consumed, one per channel of the pattern, in declared order.
#[derive(Debug)]
pub struct Firing<M> {
    pub pattern: usize,
    pub consumed: Vec<M>,
}

impl<M> View for Firing<M> {
    type V = Fired<M>;

    open spec fn view(&self) -> Fired<M> {
        Fired { pattern: self.pattern as int, consumed: self.consumed@ }
    }
}

/// The firings that a list of firing records stands for.
pub open spec fn fired<M>(firings: Seq<Firing<M>>) -> Seq<Fired<M>> {
    Seq::new(firings.len(), |k: int| firings[k]@)
}

/// The position that an optional machine index stands for.
pub open spec fn position(choice: Option<usize>) -> Option<int> {
    match choice {
        Some(p) => Some(p as int),
        None => None,
    }
}

/// Whether the pattern at position `p` is firable: whether every channel it
/// requires has a pending message.
pub fn is_firable<F, M>(table: &PatternTable<F>, bag: &MessageBag<M>, p: usize) -> (yes: bool)
    requires
        p < table@.len(),
    ensures
        yes == firable(table@[p as int], bag@),
{
    let channels = table.pattern(p).channels();
    let mut i: usize = 0;
    while i < channels.len()
        invariant
            i <= channels.len(),
            channels@ == table@[p as int],
            forall|k: int| 0 <= k < i ==> bag@[#[trigger] channels[k]].len() > 0,
        decreases channels.len() - i,
    {
        if !bag.has_pending(channels[i]) {
            return false;
        }
        i += 1;
    }
    true
}

/// Chooses the pattern that fires next after an arrival on channel `c`: among
/// the patterns that name `c` and are firable, the one registered earliest.
/// Returns nothing exactly when no pattern that names `c` is firable.
pub fn select<F, M>(table: &PatternTable<F>, bag: &MessageBag<M>, c: ChannelId) -> (choice: Option<
    usize,
>)
    requires
        table.wf(),
    ensures
        position(choice) == selected(table@, bag@, c),
{
    let count = table.len();
    proof {
        lemma_candidates(table@, c);
    }
    match table.candidates(c) {
        None => {
            proof {
                lemma_selected_is(table@, bag@, c, None);
            }
            None
        },
        Some(list) => {
            let mut k: usize = 0;
            while k < list.len()
                invariant
                    k <= list.len(),
                    table.wf(),
                    count == table@.len(),
                    list@ == candidates(table@, c),
                    forall|j: int|
                        0 <= j < list@.len() ==> {
                            let p = #[trigger] list@[j];
                            p < table@.len() && table@[p as int].contains(c)
                        },
                    forall|j: int|
                        0 <= j < k ==> !firable(table@[(#[trigger] list@[j]) as int], bag@),
                decreases list.len() - k,
            {
                let p = list[k];
                if is_firable(table, bag, p) {
                    proof {
                        lemma_candidates(table@, c);
                        assert forall|q: int| 0 <= q < p implies !eligible(table@, bag@, c, q) by {
                            if eligible(table@, bag@, c, q) {
                                let j = choose|j: int| 0 <= j < list@.len() && list@[j] == q;
                                assert(j < k);
                            }
                        }
                        lemma_selected_is(table@, bag@, c, Some(p as int));
                    }
                    return Some(p);
                }
                k += 1;
            }
            proof {
                lemma_candidates(table@, c);
                assert forall|q: int| 0 <= q < table@.len() implies !eligible(
                    table@,
                    bag@,
                    c,
                    q,
                ) by {
                    if eligible(table@, bag@, c, q) {
                        let j = choose|j: int| 0 <= j < list@.len() && list@[j] == q;
                        assert(!firable(table@[list@[j] as int], bag@));
                    }
                }
                lemma_selected_is(table@, bag@, c, None);
            }
            None
        },
    }
}

/// Fires the pattern at position `p`: removes the oldest message of each
/// channel it requires and returns them in declared order.
///
/// Nothing fires, and nothing changes, when `p` is no position of the table or
/// when one of the channels has no pending message.
pub fn fire<F, M>(table: &PatternTable<F>, bag: &mut MessageBag<M>, p: usize) -> (consumed: Option<
    Vec<M>,
>)
    requires
        table.wf(),
    ensures
        match consumed {
            Some(consumed) => {
                &&& p < table@.len()
                &&& firable(table@[p as int], old(bag)@)
                &&& consumed@ == fronts(table@[p as int], old(bag)@)
                &&& final(bag)@ == without_fronts(table@[p as int], old(bag)@)
            },
            None => {
                &&& !(p < table@.len() && firable(table@[p as int], old(bag)@))
                &&& final(bag)@ == old(bag)@
            },
        },
{
    if p >= table.len() {
        return None;
    }
    if !is_firable(table, bag, p) {
        return None;
    }
    let channels = table.pattern(p).channels();
    let ghost before = bag@;
    let mut consumed: Vec<M> = Vec::new();
    let mut i: usize = 0;
    while i < channels.len()
        invariant
            i <= channels.len(),
            channels@ == table@[p as int],
            channels@.no_duplicates(),
            firable(channels@, before),
            bag@ == without_fronts(channels@.take(i as int), before),
            consumed@ == fronts(channels@, before).take(i as int),
        decreases channels.len() - i,
    {
        let c = channels[i];
        proof {
            lemma_prefix_contains(channels@, i as int, c);
        }
        let front = bag.dequeue(c);
        let msg = front.unwrap();
        consumed.push(msg);
        proof {
            let target = without_fronts(channels@.take(i + 1), before);
            assert forall|d: ChannelId| #[trigger] bag@[d] == target[d] by {
                lemma_prefix_contains(channels@, i as int, d);
            }
        }
        i += 1;
    }
    proof {
        assert(channels@.take(channels@.len() as int) =~= channels@);
    }
    Some(consumed)
}

/// Runs the engine to completion after an arrival on channel `c`: as long as
/// a pattern that names `c` is firable, fires the earliest registered one.
/// Returns the firings in the order they happened.
pub fn run<F, M>(table: &PatternTable<F>, bag: &mut MessageBag<M>, c: ChannelId) -> (firings: Vec<
    Firing<M>,
>)
    requires
        table.wf(),
    ensures
        fired(firings@) == settle(table@, old(bag)@, c).firings,
        final(bag)@ == settle(table@, old(bag)@, c).bag,
{
    let ghost start = bag@;
    let mut firings: Vec<Firing<M>> = Vec::new();
    let mut next = select(table, bag, c);
    while next.is_some()
        invariant
            table.wf(),
            position(next) == selected(table@, bag@, c),
            settle(table@, start, c).firings == fired(firings@) + settle(table@, bag@, c).firings,
            settle(table@, start, c).bag == settle(table@, bag@, c).bag,
        decreases bag@[c].len(),
    {
        let p = next.unwrap();
        proof {
            lemma_selected(table@, bag@, c);
            lemma_firing_shortens(table@[p as int], bag@, c);
        }
        let consumed = fire(table, bag, p).unwrap();
        firings.push(Firing { pattern: p, consumed });
        next = select(table, bag, c);
    }
    firings
}

} // verus!
