//! Iterator-style composition over suspending computations: lazy transform and
//! filter combinators, exhaustive collection that honours a size estimate, a
//! forward-only materialized sequence, and classification of fallible outcomes.
//!
//! Every decision those operations take is made here, by verified functions from
//! what was pulled or computed to what is to happen next. Awaiting the upstream
//! and the per-element functions is left to the caller that drives them.

pub mod combinator;
pub mod iter;

pub use combinator::filter::AsyncFilter;
pub use combinator::map::AsyncMap;
pub use iter::process_result::{ProcessResults, ProcessResultsContainer, ProcessResultsStrategy};
pub use iter::sync_iter::SyncIter;
pub use iter::Collector;
