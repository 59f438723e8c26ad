use vstd::prelude::*;

use crate::iter::{collect_drain, collect_start};

verus! {

/// A lazy transform: yields, for each item of the upstream asynchronous iterator
/// `iter`, the result of the suspending function `f` on it. Nothing is pulled
/// before the transform itself is pulled or drained.
#[derive(Debug)]
pub struct AsyncMap<I, F> {
    /// The upstream iterator, owned by the transform.
    pub iter: I,
    /// The per-element suspending function.
    pub f: F,
}

impl<I, F> AsyncMap<I, F> {
    /// The transform of `iter` by `f`.
    pub fn new(iter: I, f: F) -> (r: Self)
        ensures
            r.iter == iter,
            r.f == f,
    {
        AsyncMap { iter, f }
    }
}

/// What producing the next transformed item does once the upstream has been pulled.
pub enum MapStep<T> {
    /// Await the function on this upstream item; its result is the next item.
    Apply(T),
    /// The upstream is exhausted, and so is the transform.
    Exhausted,
}

/// The step that follows a pull of the upstream that produced `pulled`.
pub open spec fn map_decision<T>(pulled: Option<T>) -> MapStep<T> {
    match pulled {
        Some(x) => MapStep::Apply(x),
        None => MapStep::Exhausted,
    }
}

/// Decides what follows a pull of the upstream: apply the function to the item,
/// or end the transform.
pub fn map_pulled<T>(pulled: Option<T>) -> (r: MapStep<T>)
    ensures
        r == map_decision(pulled),
{
    match pulled {
        Some(x) => MapStep::Apply(x),
        None => MapStep::Exhausted,
    }
}

/// The items that a transform yields, one pull at a time, when its upstream yields
/// `source` and is then exhausted, and the function's result on `x` is `f(x)`.
pub open spec fn mapped<T, B>(source: Seq<T>, f: spec_fn(T) -> B) -> Seq<B>
    decreases source.len(),
{
    if source.len() == 0 {
        Seq::empty()
    } else {
        match map_decision(Some(source[0])) {
            MapStep::Apply(x) => seq![f(x)] + mapped(source.drop_first(), f),
            MapStep::Exhausted => Seq::empty(),
        }
    }
}

/// A transform yields the function's result on every upstream item, in upstream order.
pub proof fn lemma_mapped<T, B>(source: Seq<T>, f: spec_fn(T) -> B)
    ensures
        mapped(source, f) == source.map_values(f),
    decreases source.len(),
{
    if source.len() > 0 {
        lemma_mapped(source.drop_first(), f);
        assert(seq![f(source[0])] + source.drop_first().map_values(f) =~= source.map_values(f));
    } else {
        assert(source.map_values(f) =~= Seq::<B>::empty());
    }
}

/// Exhaustively collecting a transform of a finite source yields `f(x)` for each
/// item `x` of the source, in order. The transform passes on its upstream's size
/// estimate, whose upper bound `limit`, if any, is one the source keeps.
pub proof fn lemma_collect_map<T, B>(source: Seq<T>, f: spec_fn(T) -> B, limit: Option<nat>)
    requires
        limit matches Some(n) ==> source.len() <= n,
    ensures
        collect_drain(collect_start(limit), mapped(source, f)).items == source.map_values(f),
{
    lemma_mapped(source, f);
    crate::iter::lemma_collect_keeps_bounded_prefix(limit, mapped(source, f));
}

} // verus!
