use vstd::prelude::*;

use crate::iter::sync_iter::SyncIter;

pub mod process_result;
pub mod sync_iter;

verus! {

/// The upper bound of a size estimate `(lower, upper)`, as a mathematical number.
pub open spec fn hint_limit(hint: (usize, Option<usize>)) -> Option<nat> {
    match hint.1 {
        Some(n) => Some(n as nat),
        None => None,
    }
}

/// Abstract state of an exhaustive collection in progress.
pub struct CollectState<T> {
    /// Items gathered so far, in arrival order.
    pub items: Seq<T>,
    /// The most items the collection will pull, when the size estimate gave an upper bound.
    pub limit: Option<nat>,
    /// Whether the collection has stopped pulling.
    pub finished: bool,
}

/// The state of a collection that has not pulled anything yet.
pub open spec fn collect_start<T>(limit: Option<nat>) -> CollectState<T> {
    CollectState { items: Seq::empty(), limit, finished: limit == Some(0nat) }
}

/// The state after one pull that produced `pulled`.
pub open spec fn collect_step<T>(s: CollectState<T>, pulled: Option<T>) -> CollectState<T> {
    match pulled {
        Some(x) => CollectState {
            items: s.items.push(x),
            limit: s.limit,
            finished: s.limit == Some((s.items.len() + 1) as nat),
        },
        None => CollectState { items: s.items, limit: s.limit, finished: true },
    }
}

/// The state reached when the pulls come from a source that yields `source` and
/// is then exhausted, and the collection pulls for as long as it asks to.
pub open spec fn collect_drain<T>(s: CollectState<T>, source: Seq<T>) -> CollectState<T>
    decreases source.len(),
{
    if s.finished {
        s
    } else if source.len() == 0 {
        collect_step(s, None)
    } else {
        collect_drain(collect_step(s, Some(source[0])), source.drop_first())
    }
}

/// What exhaustive collection keeps of a source yielding `source`: all of it, or,
/// when the upper bound `limit` is smaller, only its first `limit` items.
pub open spec fn collected<T>(limit: Option<nat>, source: Seq<T>) -> Seq<T> {
    match limit {
        Some(n) => if n < source.len() {
            source.take(n as int)
        } else {
            source
        },
        None => source,
    }
}

/// The limit left once `used` items have been gathered.
pub open spec fn limit_after(limit: Option<nat>, used: nat) -> Option<nat> {
    match limit {
        Some(n) => Some((n - used) as nat),
        None => None,
    }
}

proof fn lemma_drain_from<T>(s: CollectState<T>, source: Seq<T>)
    requires
        !s.finished,
        s.limit matches Some(n) ==> s.items.len() < n,
    ensures
        collect_drain(s, source).finished,
        collect_drain(s, source).limit == s.limit,
        collect_drain(s, source).items == s.items + collected(
            limit_after(s.limit, s.items.len()),
            source,
        ),
    decreases source.len(),
{
    let rest = limit_after(s.limit, s.items.len());
    if source.len() == 0 {
        assert(s.items + collected(rest, source) =~= s.items);
    } else {
        let next = collect_step(s, Some(source[0]));
        if next.finished {
            let n = s.limit->0;
            assert(n == s.items.len() + 1);
            assert(collected(rest, source) =~= seq![source[0]]);
            assert(next.items =~= s.items + seq![source[0]]);
        } else {
            lemma_drain_from(next, source.drop_first());
            let tail = collected(limit_after(next.limit, next.items.len()), source.drop_first());
            assert(collected(rest, source) =~= seq![source[0]] + tail);
            assert(next.items + tail =~= s.items + (seq![source[0]] + tail));
        }
    }
}

/// Exhaustive collection from a source that yields `source` and is then exhausted
/// stops, and keeps `collected(limit, source)`: everything when the size estimate has
/// no upper bound or one at least as large as the source, and otherwise only as many
/// items as that upper bound, the later ones being dropped unseen.
pub proof fn lemma_collect_keeps_bounded_prefix<T>(limit: Option<nat>, source: Seq<T>)
    ensures
        collect_drain(collect_start(limit), source).finished,
        collect_drain(collect_start(limit), source).items == collected(limit, source),
{
    let s = collect_start::<T>(limit);
    if s.finished {
        assert(collected(limit, source) =~= Seq::<T>::empty());
    } else {
        lemma_drain_from(s, source);
        assert(limit_after(limit, 0) == limit);
        assert(s.items + collected(limit, source) =~= collected(limit, source));
    }
}

/// Exhaustive collection of an asynchronous iterator into a growable sequence.
///
/// The driver asks `wants_more`, pulls one item from the iterator when it does and
/// hands the outcome to `push_pulled`. When the size estimate that the collection
/// started from has an upper bound, no more than that many items are pulled.
pub struct Collector<T> {
    items: Vec<T>,
    limit: Option<usize>,
    finished: bool,
}

impl<T> View for Collector<T> {
    type V = CollectState<T>;

    closed spec fn view(&self) -> CollectState<T> {
        CollectState {
            items: self.items@,
            limit: match self.limit {
                Some(n) => Some(n as nat),
                None => None,
            },
            finished: self.finished,
        }
    }
}

impl<T> Collector<T> {
    /// Starts a collection for an iterator whose size estimate is `hint`.
    pub fn new(hint: (usize, Option<usize>)) -> (r: Self)
        ensures
            r@ == collect_start::<T>(hint_limit(hint)),
    {
        let finished = match hint.1 {
            Some(n) => n == 0,
            None => false,
        };
        Collector { items: Vec::new(), limit: hint.1, finished }
    }

    /// Whether the collection asks for one more pull.
    pub fn wants_more(&self) -> (r: bool)
        ensures
            r == !self@.finished,
    {
        !self.finished
    }

    /// Records what one pull produced: an item is kept, exhaustion ends the collection.
    pub fn push_pulled(&mut self, pulled: Option<T>)
        requires
            !old(self)@.finished,
        ensures
            final(self)@ == collect_step(old(self)@, pulled),
    {
        match pulled {
            Some(x) => {
                self.items.push(x);
                self.finished = match self.limit {
                    Some(n) => n == self.items.len(),
                    None => false,
                };
            },
            None => {
                self.finished = true;
            },
        }
    }

    /// The items gathered, in arrival order.
    pub fn into_items(self) -> (r: Vec<T>)
        ensures
            r@ == self@.items,
    {
        self.items
    }

    /// The items gathered, as a synchronous sequence that yields them in arrival order:
    /// the same items that `into_items` gives.
    pub fn into_sync_iter(self) -> (r: SyncIter<T>)
        ensures
            r@ == self@.items,
    {
        SyncIter::new(self.items)
    }
}

} // verus!
