//! The mathematical meaning of a scalar product over `u32` values, and the
//! arithmetic facts that connect it to wrapping machine operations.

use vstd::prelude::*;

verus! {

/// The value of `x` reduced into the range of `u32`: `x mod 2^32`.
pub open spec fn wrap(x: int) -> u32 {
    (x % 0x1_0000_0000) as u32
}

/// The exact, unbounded sum of `a[i] * b[i]` over the indices `lo <= i < hi`.
pub open spec fn product_sum(a: Seq<u32>, b: Seq<u32>, lo: int, hi: int) -> int
    decreases hi - lo,
{
    if hi <= lo {
        0
    } else {
        product_sum(a, b, lo, hi - 1) + a[hi - 1] * b[hi - 1]
    }
}

/// The scalar product of `a` and `b` as every strategy must report it: the
/// exact sum of the pairwise products, reduced modulo `2^32`.
pub open spec fn dot_product(a: Seq<u32>, b: Seq<u32>) -> u32 {
    wrap(product_sum(a, b, 0, a.len() as int))
}

/// The product of two elements as a `u32` multiplication that wraps around.
pub open spec fn term(x: u32, y: u32) -> u32 {
    wrap(x * y)
}

/// The pairwise wrapped products of `a` and `b`, one per index of `a`.
pub open spec fn terms(a: Seq<u32>, b: Seq<u32>) -> Seq<u32> {
    Seq::new(a.len(), |i: int| term(a[i], b[i]))
}

/// The exact, unbounded sum of the first `n` values of `s`.
pub open spec fn prefix_sum(s: Seq<u32>, n: int) -> int
    decreases n,
{
    if n <= 0 {
        0
    } else {
        prefix_sum(s, n - 1) + s[n - 1]
    }
}

/// The sum of all values of `s`, reduced modulo `2^32`.
pub open spec fn wrapping_sum(s: Seq<u32>) -> u32 {
    wrap(prefix_sum(s, s.len() as int))
}

/// A wrapping multiplication of two `u32` values is their exact product
/// reduced modulo `2^32`.
pub proof fn lemma_wrapping_mul_is_term(x: u32, y: u32)
    ensures
        vstd::wrapping::u32_specs::wrapping_mul(x, y) == term(x, y),
{
    assert(0 <= x * y) by (nonlinear_arith);
}

/// Adding a `u32` to an accumulator with wraparound keeps the accumulator
/// equal to the reduced exact sum.
pub proof fn lemma_wrapping_add_accumulates(total: int, x: int)
    ensures
        vstd::wrapping::u32_specs::wrapping_add(wrap(total), wrap(x)) == wrap(total + x),
{
}

/// The exact sum over `[lo, hi)` is the sum over `[lo, mid)` plus the sum over
/// `[mid, hi)`.
pub proof fn lemma_product_sum_split(a: Seq<u32>, b: Seq<u32>, lo: int, mid: int, hi: int)
    requires
        lo <= mid <= hi,
    ensures
        product_sum(a, b, lo, hi) == product_sum(a, b, lo, mid) + product_sum(a, b, mid, hi),
    decreases hi - mid,
{
    if mid < hi {
        lemma_product_sum_split(a, b, lo, mid, hi - 1);
    }
}

/// The exact sum over a window of two sequences is the exact sum over the
/// same indices of the sequences it was cut from.
pub proof fn lemma_product_sum_window(a: Seq<u32>, b: Seq<u32>, start: int, end: int, n: int)
    requires
        0 <= start <= end <= a.len(),
        end <= b.len(),
        0 <= n <= end - start,
    ensures
        product_sum(a.subrange(start, end), b.subrange(start, end), 0, n) == product_sum(
            a,
            b,
            start,
            start + n,
        ),
    decreases n,
{
    if n > 0 {
        lemma_product_sum_window(a, b, start, end, n - 1);
    }
}

/// The scalar product of a window is the reduced exact sum over its indices.
pub proof fn lemma_dot_product_window(a: Seq<u32>, b: Seq<u32>, start: int, end: int)
    requires
        0 <= start <= end <= a.len(),
        end <= b.len(),
    ensures
        dot_product(a.subrange(start, end), b.subrange(start, end)) == wrap(
            product_sum(a, b, start, end),
        ),
{
    lemma_product_sum_window(a, b, start, end, end - start);
}

/// Swapping the two sequences leaves the exact sum of products unchanged.
pub proof fn lemma_product_sum_commutes(a: Seq<u32>, b: Seq<u32>, lo: int, hi: int)
    ensures
        product_sum(a, b, lo, hi) == product_sum(b, a, lo, hi),
    decreases hi - lo,
{
    if lo < hi {
        lemma_product_sum_commutes(a, b, lo, hi - 1);
        assert(a[hi - 1] * b[hi - 1] == b[hi - 1] * a[hi - 1]) by (nonlinear_arith);
    }
}

/// The scalar product does not depend on the order of its two arguments.
pub proof fn lemma_dot_product_commutes(a: Seq<u32>, b: Seq<u32>)
    requires
        a.len() == b.len(),
    ensures
        dot_product(a, b) == dot_product(b, a),
{
    lemma_product_sum_commutes(a, b, 0, a.len() as int);
}

/// Reducing every product before it is added changes nothing: the first `n`
/// wrapped products sum to the same residue as the first `n` exact products.
pub proof fn lemma_terms_prefix(a: Seq<u32>, b: Seq<u32>, n: int)
    requires
        0 <= n <= a.len(),
    ensures
        wrap(prefix_sum(terms(a, b), n)) == wrap(product_sum(a, b, 0, n)),
    decreases n,
{
    if n > 0 {
        lemma_terms_prefix(a, b, n - 1);
    }
}

/// The scalar product is the sum, modulo `2^32`, of the pairwise products
/// each taken modulo `2^32`.
pub proof fn lemma_dot_product_is_wrapping_sum(a: Seq<u32>, b: Seq<u32>)
    ensures
        dot_product(a, b) == wrapping_sum(terms(a, b)),
{
    lemma_terms_prefix(a, b, a.len() as int);
}

} // verus!
