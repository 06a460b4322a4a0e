//! The strategies are interchangeable: what each of them computes is the
//! same value for the same two sequences.

use crate::model::{dot_product, lemma_dot_product_is_wrapping_sum, terms, wrapping_sum};
use crate::partition::{lemma_partitioned_dot, partitioned_dot};
use vstd::prelude::*;

verus! {

/// For two sequences of equal length, the sum of wrapped products that the
/// work-stealing strategy forms and the sum of partial results that the
/// partitioned strategy forms, for any number of workers, both equal the
/// scalar product that the two sequential strategies return.
pub proof fn lemma_strategies_agree(a: Seq<u32>, b: Seq<u32>, workers: int)
    requires
        a.len() == b.len(),
        1 <= workers,
    ensures
        wrapping_sum(terms(a, b)) == dot_product(a, b),
        partitioned_dot(a, b, workers) == dot_product(a, b),
        a.len() == 0 ==> dot_product(a, b) == 0,
{
    lemma_dot_product_is_wrapping_sum(a, b);
    lemma_partitioned_dot(a, b, workers);
}

} // verus!
