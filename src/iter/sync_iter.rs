use vstd::prelude::*;

use std::collections::VecDeque;

verus! {

/// An ordered, fully materialized sequence that is consumed forward, one item at a time.
pub struct SyncIter<T> {
    items: VecDeque<T>,
}

impl<T> View for SyncIter<T> {
    /// The items not yet produced, in order.
    type V = Seq<T>;

    closed spec fn view(&self) -> Seq<T> {
        self.items@
    }
}

impl<T> SyncIter<T> {
    /// A sequence that produces the items of `items`, first to last.
    pub fn new(items: Vec<T>) -> (r: Self)
        ensures
            r@ == items@,
    {
        let mut items = items;
        let ghost all = items@;
        let mut queue: VecDeque<T> = VecDeque::new();
        while items.len() > 0
            invariant
                all == items@ + queue@,
            decreases items.len(),
        {
            let x = items.pop().unwrap();
            queue.push_front(x);
            assert(all =~= items@ + queue@);
        }
        assert(items@ + queue@ =~= queue@);
        SyncIter { items: queue }
    }

    /// Produces the next item, or `None` once every item has been produced.
    pub fn next(&mut self) -> (r: Option<T>)
        ensures
            old(self)@.len() == 0 ==> r is None && final(self)@ == old(self)@,
            old(self)@.len() > 0 ==> r == Some(old(self)@[0]) && final(self)@
                == old(self)@.drop_first(),
    {
        self.items.pop_front()
    }
}

} // verus!
