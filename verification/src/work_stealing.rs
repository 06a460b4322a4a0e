//! The data-parallel strategy: the pairwise products are computed and summed
//! on rayon's pool of worker threads, which splits the index range as it
//! sees fit.

use crate::model::{
    dot_product, lemma_dot_product_is_wrapping_sum, lemma_wrapping_mul_is_term, term, terms,
    wrapping_sum,
};
use rayon::iter::{IndexedParallelIterator, IntoParallelRefIterator, ParallelIterator};
use std::num::Wrapping;
use vstd::prelude::*;

verus! {

/// The product of two elements, wrapping around on overflow. This is what
/// every worker computes for each pair it is handed.
pub fn wrapped_product(x1: u32, x2: u32) -> (product: u32)
    ensures
        product == term(x1, x2),
{
    proof {
        lemma_wrapping_mul_is_term(x1, x2);
    }
    x1.wrapping_mul(x2)
}

/// Runs rayon's `par_iter`, `zip`, `map` and `sum` over the two slices.
///
/// Not proved, but taken from rayon's documentation: `zip` pairs the elements
/// that share an index, `map` applies [`wrapped_product`] to every pair, and
/// `sum` adds up all mapped items in an unspecified order. The items are
/// summed as `Wrapping<u32>`, whose addition is associative and commutative,
/// so every order gives the sum of the wrapped products modulo `2^32`.
#[verifier::external_body]
fn par_sum_of_products(vec1: &[u32], vec2: &[u32]) -> (total: u32)
    requires
        vec1@.len() == vec2@.len(),
    ensures
        total == wrapping_sum(terms(vec1@, vec2@)),
{
    vec1.par_iter()
        .zip(vec2.par_iter())
        .map(|(x1, x2)| wrapped_product(*x1, *x2))
        .map(Wrapping)
        .sum::<Wrapping<u32>>()
        .0
}

/// Computes the scalar product with rayon's work-stealing parallel iterators.
pub fn rayon_product(vec1: &[u32], vec2: &[u32]) -> (total: u32)
    requires
        vec1@.len() == vec2@.len(),
    ensures
        total == wrapping_sum(terms(vec1@, vec2@)),
        total == dot_product(vec1@, vec2@),
{
    proof {
        lemma_dot_product_is_wrapping_sum(vec1@, vec2@);
    }
    par_sum_of_products(vec1, vec2)
}

} // verus!
