//! Data-parallel mapping on a thread pool.

use vstd::prelude::*;
use rayon::iter::{IntoParallelRefIterator, ParallelIterator};

verus! {

/// Applies `f` to every item of `items` on rayon's global thread pool and
/// returns the results in the order of the items.
///
/// This is `par_iter()`, `ParallelIterator::map` and
/// `ParallelIterator::collect` into a `Vec`, taken on trust: rayon hands each
/// item to `f` exactly once, on some worker thread, and the collected vector
/// holds at index `i` what `f` returned for item `i`. Nothing is claimed about
/// the order in which the calls run.
#[verifier::external_body]
pub(crate) fn par_map<T: Sync, R: Send, F: Fn(&T) -> R + Sync + Send>(items: &Vec<T>, f: F) -> (out: Vec<R>)
    requires
        forall|i: int| 0 <= i < items@.len() ==> call_requires(f, (&#[trigger] items@[i],)),
    ensures
        out@.len() == items@.len(),
        forall|i: int| 0 <= i < items@.len() ==> call_ensures(f, (&items@[i],), #[trigger] out@[i]),
{
    items.par_iter().map(f).collect()
}

} // verus!
