use vstd::prelude::*;

use std::marker::PhantomData;

use crate::iter::sync_iter::SyncIter;

verus! {

/// How a stream of fallible outcomes is classified.
#[derive(Clone, Copy, Debug, PartialEq, Eq, Structural)]
pub enum ProcessResultsStrategy {
    /// Classify every outcome, never stopping early.
    Partition,
    /// At the first error, keep that error alone and nothing else.
    BreakOnError,
}

impl Default for ProcessResultsStrategy {
    fn default() -> (r: Self)
        ensures
            r == ProcessResultsStrategy::Partition,
    {
        ProcessResultsStrategy::Partition
    }
}

/// The successes among `outcomes`, in order.
pub open spec fn successes_of<T, E>(outcomes: Seq<Result<T, E>>) -> Seq<T>
    decreases outcomes.len(),
{
    if outcomes.len() == 0 {
        Seq::empty()
    } else {
        let before = successes_of(outcomes.drop_last());
        match outcomes.last() {
            Ok(v) => before.push(v),
            Err(_) => before,
        }
    }
}

/// The errors among `outcomes`, in order.
pub open spec fn errors_of<T, E>(outcomes: Seq<Result<T, E>>) -> Seq<E>
    decreases outcomes.len(),
{
    if outcomes.len() == 0 {
        Seq::empty()
    } else {
        let before = errors_of(outcomes.drop_last());
        match outcomes.last() {
            Ok(_) => before,
            Err(e) => before.push(e),
        }
    }
}

/// The successes and the errors that classifying `outcomes` under `strategy` retains.
pub open spec fn classified<T, E>(
    outcomes: Seq<Result<T, E>>,
    strategy: ProcessResultsStrategy,
) -> (Seq<T>, Seq<E>) {
    match strategy {
        ProcessResultsStrategy::Partition => (successes_of(outcomes), errors_of(outcomes)),
        ProcessResultsStrategy::BreakOnError => if errors_of(outcomes).len() > 0 {
            (Seq::empty(), seq![errors_of(outcomes)[0]])
        } else {
            (successes_of(outcomes), Seq::empty())
        },
    }
}

/// Errors of a concatenation are the errors of each part, in order.
pub proof fn lemma_errors_of_append<T, E>(a: Seq<Result<T, E>>, b: Seq<Result<T, E>>)
    ensures
        errors_of(a + b) == errors_of(a) + errors_of(b),
    decreases b.len(),
{
    if b.len() == 0 {
        assert(a + b =~= a);
        assert(errors_of(a) + errors_of(b) =~= errors_of(a));
    } else {
        assert((a + b).drop_last() =~= a + b.drop_last());
        lemma_errors_of_append(a, b.drop_last());
        match b.last() {
            Ok(_) => {},
            Err(e) => {
                assert(errors_of(a) + errors_of(b.drop_last()).push(e) =~= (errors_of(a)
                    + errors_of(b.drop_last())).push(e));
            },
        }
    }
}

/// Successes and errors of a stream, kept apart, each in arrival order.
#[derive(Clone, Debug)]
pub struct ProcessResultsContainer<T, E> {
    successes: Vec<T>,
    errors: Vec<E>,
}

impl<T, E> View for ProcessResultsContainer<T, E> {
    /// The successes, then the errors.
    type V = (Seq<T>, Seq<E>);

    closed spec fn view(&self) -> (Seq<T>, Seq<E>) {
        (self.successes@, self.errors@)
    }
}

impl<T, E> ProcessResultsContainer<T, E> {
    /// The first error as the failure when there is any error, else all the successes.
    pub fn into_result(self) -> (r: Result<Vec<T>, E>)
        ensures
            match r {
                Ok(v) => self@.1.len() == 0 && v@ == self@.0,
                Err(e) => self@.1.len() > 0 && e == self@.1[0],
            },
    {
        if !self.errors.is_empty() {
            let mut errors = self.into_errors();
            Err(errors.remove(0))
        } else {
            Ok(self.successes)
        }
    }

    /// The successes, in arrival order.
    pub fn into_successes(self) -> (r: Vec<T>)
        ensures
            r@ == self@.0,
    {
        self.successes
    }

    /// The errors, in arrival order.
    pub fn into_errors(self) -> (r: Vec<E>)
        ensures
            r@ == self@.1,
    {
        self.errors
    }

    /// The successes, in arrival order.
    pub fn successes(&self) -> (r: &Vec<T>)
        ensures
            r@ == self@.0,
    {
        &self.successes
    }

    /// The errors, in arrival order.
    pub fn errors(&self) -> (r: &Vec<E>)
        ensures
            r@ == self@.1,
    {
        &self.errors
    }
}

impl ProcessResultsStrategy {
    /// Classifies fully drained outcomes, in order, under this strategy.
    ///
    /// Every outcome has been pulled before classification starts: stopping at the
    /// first error changes what is kept, not how much was pulled.
    pub fn classify<T, E>(
        self,
        drained: SyncIter<Result<T, E>>,
    ) -> (r: ProcessResultsContainer<T, E>)
        ensures
            r@ == classified(drained@, self),
    {
        let ghost all = drained@;
        let mut rest = drained;
        let mut successes: Vec<T> = Vec::new();
        let mut errors: Vec<E> = Vec::new();
        let ghost mut done: nat = 0;
        loop
            invariant
                all == drained@,
                done <= all.len(),
                rest@ == all.skip(done as int),
                successes@ == successes_of(all.take(done as int)),
                errors@ == errors_of(all.take(done as int)),
                self == ProcessResultsStrategy::BreakOnError ==> errors@.len() == 0,
            ensures
                done == all.len(),
                successes@ == successes_of(all.take(done as int)),
                errors@ == errors_of(all.take(done as int)),
            decreases all.len() - done,
        {
            let item = match rest.next() {
                Some(item) => item,
                None => break,
            };
            assert(all.take(done + 1 as int).drop_last() =~= all.take(done as int));
            assert(all.take(done + 1 as int).last() == item);
            proof {
                done = done + 1;
            }
            assert(rest@ =~= all.skip(done as int));
            match item {
                Ok(v) => successes.push(v),
                Err(e) => {
                    errors.push(e);
                    if self == ProcessResultsStrategy::BreakOnError {
                        proof {
                            let before = all.take(done as int);
                            let after = all.skip(done as int);
                            assert(all =~= before + after);
                            lemma_errors_of_append(before, after);
                            assert(errors@ =~= seq![e]);
                        }
                        let none: Vec<T> = Vec::new();
                        let r = ProcessResultsContainer { successes: none, errors };
                        assert(r@ =~~= classified(all, self));
                        return r;
                    }
                },
            }
        }
        assert(all.take(done as int) =~= all);
        ProcessResultsContainer { successes, errors }
    }
}

/// Classification, to be run once, of the fallible outcomes of an asynchronous
/// iterator `I` whose items are `Result<T, E>`.
pub struct ProcessResults<I, T, E> {
    iter: I,
    strategy: ProcessResultsStrategy,
    outcome: PhantomData<(T, E)>,
}

impl<I, T, E> ProcessResults<I, T, E> {
    /// The iterator whose outcomes are classified.
    pub closed spec fn upstream(&self) -> I {
        self.iter
    }

    /// The strategy that classification follows.
    pub closed spec fn strategy(&self) -> ProcessResultsStrategy {
        self.strategy
    }

    /// Classification of the outcomes of `iter` under the default strategy, `Partition`.
    pub fn new(iter: I) -> (r: ProcessResults<I, T, E>)
        ensures
            r.upstream() == iter,
            r.strategy() == ProcessResultsStrategy::Partition,
    {
        ProcessResults { iter, strategy: ProcessResultsStrategy::default(), outcome: PhantomData }
    }

    /// The same classification under `strategy`.
    pub fn with_process_strategy(self, strategy: ProcessResultsStrategy) -> (r: Self)
        ensures
            r.upstream() == self.upstream(),
            r.strategy() == strategy,
    {
        let mut this = self;
        this.strategy = strategy;
        this
    }

    /// The iterator and the strategy, for the driver that drains the one and applies the other.
    pub fn into_parts(self) -> (r: (I, ProcessResultsStrategy))
        ensures
            r.0 == self.upstream(),
            r.1 == self.strategy(),
    {
        (self.iter, self.strategy)
    }
}

} // verus!
