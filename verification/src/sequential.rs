//! The two single-threaded strategies: a fold over the elements and a loop
//! over the indices.

use crate::model::{
    dot_product, lemma_wrapping_add_accumulates, lemma_wrapping_mul_is_term, product_sum, wrap,
};
use vstd::prelude::*;

verus! {

/// Folds the pairwise products of `vec1` and `vec2` into their sum, taking
/// the elements of `vec1` one by one as its iterator yields them.
pub fn scalar_product(vec1: &[u32], vec2: &[u32]) -> (total: u32)
    requires
        vec1@.len() == vec2@.len(),
    ensures
        total == dot_product(vec1@, vec2@),
{
    let mut total: u32 = 0;
    let mut seen: usize = 0;
    for x1 in it: vec1.iter()
        invariant
            vec1@.len() == vec2@.len(),
            seen == it.index(),
            it.seq().len() == vec1@.len(),
            forall|k: int| 0 <= k < vec1@.len() ==> *it.seq()[k] == vec1@[k],
            total == wrap(product_sum(vec1@, vec2@, 0, seen as int)),
    {
        let x2: u32 = vec2[seen];
        proof {
            lemma_wrapping_mul_is_term(*x1, x2);
            lemma_wrapping_add_accumulates(
                product_sum(vec1@, vec2@, 0, seen as int),
                *x1 * x2,
            );
        }
        total = total.wrapping_add(x1.wrapping_mul(x2));
        seen = seen + 1;
    }
    total
}

/// Accumulates `vec1[i] * vec2[i]` for every index `i` in turn.
pub fn scalar_product_for(vec1: &[u32], vec2: &[u32]) -> (sum: u32)
    requires
        vec1@.len() == vec2@.len(),
    ensures
        sum == dot_product(vec1@, vec2@),
{
    let n: usize = vec1.len();
    let mut sum: u32 = 0;
    for i in 0..n
        invariant
            n == vec1@.len(),
            n == vec2@.len(),
            sum == wrap(product_sum(vec1@, vec2@, 0, i as int)),
    {
        proof {
            lemma_wrapping_mul_is_term(vec1@[i as int], vec2@[i as int]);
            lemma_wrapping_add_accumulates(
                product_sum(vec1@, vec2@, 0, i as int),
                vec1@[i as int] * vec2@[i as int],
            );
        }
        sum = sum.wrapping_add(vec1[i].wrapping_mul(vec2[i]));
    }
    sum
}

} // verus!
