use vstd::prelude::*;

use crate::iter::{collect_drain, collect_start};

verus! {

/// A lazy filter: yields the items of the upstream asynchronous iterator `iter`
/// on which the suspending predicate `f` holds. The predicate is given a duplicate
/// of each item; the item itself is what passes on.
#[derive(Clone, Debug)]
pub struct AsyncFilter<I, F> {
    /// The upstream iterator, owned by the filter.
    pub iter: I,
    /// The per-element suspending predicate.
    pub f: F,
}

impl<I, F> AsyncFilter<I, F> {
    /// The filter of `iter` by `f`.
    pub fn new(iter: I, f: F) -> (r: Self)
        ensures
            r.iter == iter,
            r.f == f,
    {
        AsyncFilter { iter, f }
    }
}

/// What producing the next item of a filter does next.
pub enum FilterStep<T> {
    /// Pull the upstream again.
    Pull,
    /// Await the predicate on `probe`, a duplicate of `item`, and report its answer
    /// together with `item`.
    Test { item: T, probe: T },
    /// `item` passed: it is the next item.
    Yield(T),
    /// The upstream is exhausted, and so is the filter.
    Exhausted,
}

/// Decides what follows a pull of the upstream: test a duplicate of the item, or end
/// the filter.
pub fn filter_pulled<T: Clone>(pulled: Option<T>) -> (r: FilterStep<T>)
    ensures
        match pulled {
            Some(x) => r matches FilterStep::Test { item, probe } && item == x && cloned(x, probe),
            None => r is Exhausted,
        },
{
    match pulled {
        Some(x) => {
            let probe = x.clone();
            FilterStep::Test { item: x, probe }
        },
        None => FilterStep::Exhausted,
    }
}

/// The step that follows the predicate's answer `keep` on a duplicate of `item`.
pub open spec fn filter_decision<T>(item: T, keep: bool) -> FilterStep<T> {
    if keep {
        FilterStep::Yield(item)
    } else {
        FilterStep::Pull
    }
}

/// Decides what follows the predicate's answer on `item`: yield it, or pull again.
pub fn filter_tested<T>(item: T, keep: bool) -> (r: FilterStep<T>)
    ensures
        r == filter_decision(item, keep),
{
    if keep {
        FilterStep::Yield(item)
    } else {
        FilterStep::Pull
    }
}

/// The items that a filter yields, one pull at a time, when its upstream yields
/// `source` and is then exhausted, and the predicate answers `p(x)` on a duplicate
/// of `x`.
pub open spec fn filtered<T>(source: Seq<T>, p: spec_fn(T) -> bool) -> Seq<T>
    decreases source.len(),
{
    if source.len() == 0 {
        Seq::empty()
    } else {
        let rest = filtered(source.drop_first(), p);
        match filter_decision(source[0], p(source[0])) {
            FilterStep::Yield(x) => seq![x] + rest,
            _ => rest,
        }
    }
}

/// A filter yields exactly the upstream items on which the predicate holds, in
/// upstream order, as the upstream produced them.
pub proof fn lemma_filtered<T>(source: Seq<T>, p: spec_fn(T) -> bool)
    ensures
        filtered(source, p) == source.filter(p),
    decreases source.len(),
{
    if source.len() > 0 {
        lemma_filtered(source.drop_first(), p);
        source.lemma_filter_eq_filter_alt(p);
    } else {
        reveal(Seq::filter);
    }
}

/// Exhaustively collecting a filter of a finite source yields the items on which
/// the predicate holds, in order. The filter passes on its upstream's size estimate,
/// whose upper bound `limit`, if any, is one the source keeps.
pub proof fn lemma_collect_filter<T>(source: Seq<T>, p: spec_fn(T) -> bool, limit: Option<nat>)
    requires
        limit matches Some(n) ==> source.len() <= n,
    ensures
        collect_drain(collect_start(limit), filtered(source, p)).items == source.filter(p),
{
    lemma_filtered(source, p);
    source.filter_lemma(p);
    crate::iter::lemma_collect_keeps_bounded_prefix(limit, filtered(source, p));
}

/// Filtering by `p1` and then by `p2` yields what a single filter by
/// "`p1` and then `p2`" yields.
pub proof fn lemma_filter_filter<T>(source: Seq<T>, p1: spec_fn(T) -> bool, p2: spec_fn(T) -> bool)
    ensures
        filtered(filtered(source, p1), p2) == filtered(source, |x: T| p1(x) && p2(x)),
    decreases source.len(),
{
    if source.len() > 0 {
        lemma_filter_filter(source.drop_first(), p1, p2);
        let rest = filtered(source.drop_first(), p1);
        if p1(source[0]) {
            assert((seq![source[0]] + rest).drop_first() =~= rest);
        }
    }
}

} // verus!
