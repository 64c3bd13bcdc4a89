//! Work that is handed out to a pool of threads.

use rayon::iter::{IntoParallelIterator, ParallelIterator};
use vstd::prelude::*;

verus! {

/// `rayon`'s parallel iterator over the range from 0 to `n`, mapped by `f`
/// and collected into a vector. The vector holds one item for each index,
/// in the order of the indices, and the item at an index is what the call
/// of `f` on that index returned. The calls may run in any order and at the
/// same time.
#[verifier::external_body]
pub(crate) fn par_collect<U: Send, F: Fn(usize) -> U + Sync>(n: usize, f: &F) -> (out: Vec<U>)
    requires
        forall|i: usize| i < n ==> f.requires((i,)),
    ensures
        out@.len() == n,
        forall|i: int| 0 <= i < n ==> f.ensures((i as usize,), #[trigger] out@[i]),
{
    (0..n).into_par_iter().map(f).collect()
}

} // verus!
