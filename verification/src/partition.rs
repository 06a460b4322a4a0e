//! The manually partitioned strategy: the index range is cut into one chunk
//! per worker plus a remainder chunk, every chunk is reduced on its own, and
//! the partial results are summed once every worker has reported.

use crate::model::{
    dot_product, lemma_dot_product_window, lemma_product_sum_split, prefix_sum, product_sum, wrap,
};
use crate::sequential::scalar_product;
use vstd::prelude::*;

verus! {

/// A half-open range `[start, end)` of indices into both input sequences.
#[derive(Clone, Copy, Debug, PartialEq, Eq)]
pub struct Chunk {
    pub start: usize,
    pub end: usize,
}

impl Chunk {
    /// Whether the chunk is a range of indices of a sequence of `len` items.
    pub open spec fn fits(self, len: int) -> bool {
        self.start <= self.end <= len
    }
}

/// The terminal state that a worker reached.
#[derive(Clone, Copy, Debug, PartialEq, Eq)]
pub enum WorkerOutcome {
    /// The worker reduced its chunk to this partial result.
    Completed(u32),
    /// The worker faulted and has no result.
    Failed,
}

/// The error of a partitioned reduction: the worker at index `worker`, the
/// first in spawn order to do so, ended as [`WorkerOutcome::Failed`].
#[derive(Clone, Copy, Debug, PartialEq, Eq)]
pub struct WorkerFailure {
    pub worker: usize,
}

/// The common length of the worker chunks when `len` indices are divided
/// among `workers` workers.
pub open spec fn chunk_len(len: int, workers: int) -> int {
    len / workers
}

/// The first index of the chunk of worker `i`.
pub open spec fn worker_start(len: int, workers: int, i: int) -> int {
    i * chunk_len(len, workers)
}

/// The index one past the chunk of worker `i`.
pub open spec fn worker_end(len: int, workers: int, i: int) -> int {
    (i + 1) * chunk_len(len, workers)
}

/// The first index of the remainder chunk, which runs to `len`.
pub open spec fn remainder_start(len: int, workers: int) -> int {
    workers * chunk_len(len, workers)
}

/// Whether index `idx` lies in the chunk of worker `i`.
pub open spec fn in_worker_chunk(len: int, workers: int, i: int, idx: int) -> bool {
    worker_start(len, workers, i) <= idx < worker_end(len, workers, i)
}

/// Whether index `idx` lies in the remainder chunk.
pub open spec fn in_remainder_chunk(len: int, workers: int, idx: int) -> bool {
    remainder_start(len, workers) <= idx < len
}

/// The partial result of every worker, in spawn order.
pub open spec fn worker_partials(a: Seq<u32>, b: Seq<u32>, workers: int) -> Seq<u32> {
    Seq::new(
        workers as nat,
        |i: int|
            dot_product(
                a.subrange(
                    worker_start(a.len() as int, workers, i),
                    worker_end(a.len() as int, workers, i),
                ),
                b.subrange(
                    worker_start(a.len() as int, workers, i),
                    worker_end(a.len() as int, workers, i),
                ),
            ),
    )
}

/// The partial result of the remainder chunk.
pub open spec fn remainder_partial(a: Seq<u32>, b: Seq<u32>, workers: int) -> u32 {
    dot_product(
        a.subrange(remainder_start(a.len() as int, workers), a.len() as int),
        b.subrange(remainder_start(a.len() as int, workers), a.len() as int),
    )
}

/// What the partitioned strategy computes with `workers` workers: the
/// remainder's partial result plus every worker's, modulo `2^32`.
pub open spec fn partitioned_dot(a: Seq<u32>, b: Seq<u32>, workers: int) -> u32 {
    wrap(remainder_partial(a, b, workers) + prefix_sum(worker_partials(a, b, workers), workers))
}

/// Whether every worker completed.
pub open spec fn all_completed(outcomes: Seq<WorkerOutcome>) -> bool {
    forall|i: int| 0 <= i < outcomes.len() ==> outcomes[i] is Completed
}

/// Whether worker `k` failed and every worker before it completed.
pub open spec fn first_failed(outcomes: Seq<WorkerOutcome>, k: int) -> bool {
    &&& 0 <= k < outcomes.len()
    &&& outcomes[k] is Failed
    &&& forall|i: int| 0 <= i < k ==> outcomes[i] is Completed
}

/// The partial results that the outcomes carry; a failed worker carries none
/// and stands as 0.
pub open spec fn completed_values(outcomes: Seq<WorkerOutcome>) -> Seq<u32> {
    Seq::new(
        outcomes.len(),
        |i: int|
            match outcomes[i] {
                WorkerOutcome::Completed(value) => value,
                WorkerOutcome::Failed => 0u32,
            },
    )
}

/// The worker chunks follow one another from index 0 without leaving the
/// sequence: each starts where the one before ended, and the last ends at or
/// before `len`, where the remainder chunk starts.
pub proof fn lemma_chunks_in_order(len: int, workers: int, i: int)
    requires
        0 <= len,
        1 <= workers,
        0 <= i < workers,
    ensures
        0 <= worker_start(len, workers, i) <= worker_end(len, workers, i),
        worker_end(len, workers, i) == worker_start(len, workers, i) + chunk_len(len, workers),
        worker_end(len, workers, i) == worker_start(len, workers, i + 1),
        worker_end(len, workers, i) <= remainder_start(len, workers) <= len,
        len - remainder_start(len, workers) == len % workers,
{
    let c = len / workers;
    assert(0 <= c && workers * c + len % workers == len && 0 <= len % workers) by (nonlinear_arith)
        requires
            c == len / workers,
            0 <= len,
            1 <= workers,
    ;
    assert(0 <= i * c && (i + 1) * c == i * c + c && (i + 1) * c <= workers * c)
        by (nonlinear_arith)
        requires
            0 <= c,
            0 <= i < workers,
    ;
}

/// The length of the worker chunks for `len` indices and `n_threads` workers.
pub fn chunk_size(len: usize, n_threads: usize) -> (size: usize)
    requires
        n_threads >= 1,
    ensures
        size == chunk_len(len as int, n_threads as int),
{
    len / n_threads
}

/// The chunk that worker `i` of `n_threads` reduces.
pub fn worker_chunk(len: usize, n_threads: usize, i: usize) -> (chunk: Chunk)
    requires
        n_threads >= 1,
        i < n_threads,
    ensures
        chunk.start == worker_start(len as int, n_threads as int, i as int),
        chunk.end == worker_end(len as int, n_threads as int, i as int),
        chunk.fits(len as int),
{
    let n: usize = chunk_size(len, n_threads);
    proof {
        lemma_chunks_in_order(len as int, n_threads as int, i as int);
    }
    Chunk { start: i * n, end: (i + 1) * n }
}

/// The chunk that is left over once every worker has its chunk; the calling
/// thread reduces it.
pub fn remainder_chunk(len: usize, n_threads: usize) -> (chunk: Chunk)
    requires
        n_threads >= 1,
    ensures
        chunk.start == remainder_start(len as int, n_threads as int),
        chunk.end == len,
        chunk.fits(len as int),
{
    let n: usize = chunk_size(len, n_threads);
    proof {
        lemma_chunks_in_order(len as int, n_threads as int, 0);
    }
    Chunk { start: n_threads * n, end: len }
}

/// Reduces one chunk: the scalar product of the two sequences restricted to
/// the indices of `chunk`.
pub fn chunk_product(vec1: &[u32], vec2: &[u32], chunk: Chunk) -> (partial: u32)
    requires
        vec1@.len() == vec2@.len(),
        chunk.fits(vec1@.len() as int),
    ensures
        partial == dot_product(
            vec1@.subrange(chunk.start as int, chunk.end as int),
            vec2@.subrange(chunk.start as int, chunk.end as int),
        ),
{
    scalar_product(&vec1[chunk.start..chunk.end], &vec2[chunk.start..chunk.end])
}

/// Sums the remainder's partial result and the partial result of every
/// worker, or reports the first worker that failed.
pub fn aggregate(remainder: u32, outcomes: &[WorkerOutcome]) -> (result: Result<u32, WorkerFailure>)
    ensures
        match result {
            Ok(sum) => {
                &&& all_completed(outcomes@)
                &&& sum == wrap(
                    remainder + prefix_sum(completed_values(outcomes@), outcomes@.len() as int),
                )
            },
            Err(failure) => first_failed(outcomes@, failure.worker as int),
        },
{
    let mut sum: u32 = remainder;
    for i in 0..outcomes.len()
        invariant
            forall|k: int| 0 <= k < i ==> outcomes@[k] is Completed,
            sum == wrap(remainder + prefix_sum(completed_values(outcomes@), i as int)),
    {
        match outcomes[i] {
            WorkerOutcome::Completed(value) => {
                sum = sum.wrapping_add(value);
            },
            WorkerOutcome::Failed => {
                return Err(WorkerFailure { worker: i });
            },
        }
    }
    Ok(sum)
}

/// Every index of the sequence is counted exactly once: it lies in the
/// remainder chunk or in the chunk of one worker, never in both and never in
/// the chunks of two workers.
pub proof fn lemma_index_counted_once(len: int, workers: int, idx: int)
    requires
        1 <= workers,
        0 <= idx < len,
    ensures
        in_remainder_chunk(len, workers, idx) <==> !(exists|i: int|
            0 <= i < workers && in_worker_chunk(len, workers, i, idx)),
        forall|i: int, j: int|
            0 <= i < workers && 0 <= j < workers && in_worker_chunk(len, workers, i, idx)
                && in_worker_chunk(len, workers, j, idx) ==> i == j,
{
    let c = len / workers;
    assert forall|i: int, j: int|
        0 <= i < workers && 0 <= j < workers && in_worker_chunk(len, workers, i, idx)
            && in_worker_chunk(len, workers, j, idx) implies i == j by {
        if i < j {
            assert((i + 1) * c <= j * c) by (nonlinear_arith)
                requires
                    i + 1 <= j,
                    0 <= c,
            ;
        }
        if j < i {
            assert((j + 1) * c <= i * c) by (nonlinear_arith)
                requires
                    j + 1 <= i,
                    0 <= c,
            ;
        }
    }
    if in_remainder_chunk(len, workers, idx) {
        assert forall|i: int| 0 <= i < workers implies !in_worker_chunk(len, workers, i, idx) by {
            lemma_chunks_in_order(len, workers, i);
        }
    } else {
        lemma_chunks_in_order(len, workers, 0);
        assert(c > 0 && 0 <= idx / c < workers && (idx / c) * c <= idx < (idx / c + 1) * c)
            by (nonlinear_arith)
            requires
                0 <= idx < workers * c,
                1 <= workers,
        ;
        assert(in_worker_chunk(len, workers, idx / c, idx));
    }
}

/// The partial results of the first `k` workers sum to the residue of the
/// exact sum over the indices before the chunk of worker `k`.
pub proof fn lemma_worker_partials_prefix(a: Seq<u32>, b: Seq<u32>, workers: int, k: int)
    requires
        a.len() == b.len(),
        1 <= workers,
        0 <= k <= workers,
    ensures
        0 <= k * chunk_len(a.len() as int, workers) <= a.len(),
        wrap(prefix_sum(worker_partials(a, b, workers), k)) == wrap(
            product_sum(a, b, 0, k * chunk_len(a.len() as int, workers)),
        ),
    decreases k,
{
    let len = a.len() as int;
    if k > 0 {
        lemma_worker_partials_prefix(a, b, workers, k - 1);
        lemma_chunks_in_order(len, workers, k - 1);
        let start = worker_start(len, workers, k - 1);
        let end = worker_end(len, workers, k - 1);
        assert(end == k * chunk_len(len, workers));
        lemma_dot_product_window(a, b, start, end);
        lemma_product_sum_split(a, b, 0, start, end);
    } else {
        assert(0 * chunk_len(len, workers) == 0);
    }
}

/// The partitioned strategy computes the scalar product, whatever the number
/// of workers.
pub proof fn lemma_partitioned_dot(a: Seq<u32>, b: Seq<u32>, workers: int)
    requires
        a.len() == b.len(),
        1 <= workers,
    ensures
        partitioned_dot(a, b, workers) == dot_product(a, b),
{
    let len = a.len() as int;
    lemma_worker_partials_prefix(a, b, workers, workers);
    let start = remainder_start(len, workers);
    lemma_dot_product_window(a, b, start, len);
    lemma_product_sum_split(a, b, 0, start, len);
}

/// The result of the partitioned strategy does not depend on the number of
/// workers that the index range is divided among.
pub proof fn lemma_partition_independent(a: Seq<u32>, b: Seq<u32>, workers1: int, workers2: int)
    requires
        a.len() == b.len(),
        1 <= workers1,
        1 <= workers2,
    ensures
        partitioned_dot(a, b, workers1) == partitioned_dot(a, b, workers2),
{
    lemma_partitioned_dot(a, b, workers1);
    lemma_partitioned_dot(a, b, workers2);
}

/// When every worker completed with the scalar product of its own chunk,
/// the remainder's partial result plus the values that the outcomes carry is
/// the scalar product of the whole sequences.
pub proof fn lemma_completed_workers_sum(
    a: Seq<u32>,
    b: Seq<u32>,
    workers: int,
    outcomes: Seq<WorkerOutcome>,
)
    requires
        a.len() == b.len(),
        1 <= workers,
        outcomes.len() == workers,
        forall|i: int|
            0 <= i < workers ==> outcomes[i] == WorkerOutcome::Completed(
                worker_partials(a, b, workers)[i],
            ),
    ensures
        all_completed(outcomes),
        wrap(remainder_partial(a, b, workers) + prefix_sum(completed_values(outcomes), workers))
            == partitioned_dot(a, b, workers),
        partitioned_dot(a, b, workers) == dot_product(a, b),
{
    assert(completed_values(outcomes) =~= worker_partials(a, b, workers));
    lemma_partitioned_dot(a, b, workers);
}

/// Asks `num_cpus::get` for the number of logical CPUs available to this
/// process.
///
/// Not proved, but taken from its documentation: the count is always at
/// least 1. Nothing else is claimed of it; it depends on the machine.
#[verifier::external_body]
fn detected_parallelism() -> (n_threads: usize)
    ensures
        n_threads >= 1,
{
    num_cpus::get()
}

/// Computes the scalar product by the partition for `n_threads` workers,
/// reducing the chunks on the calling thread one after another.
///
/// A caller that runs one thread per worker hands [`worker_chunk`] and
/// [`chunk_product`] to its threads and their outcomes to [`aggregate`]; this
/// function is the same reduction with every worker run in place.
pub fn par_scalar_product_with(vec1: &[u32], vec2: &[u32], n_threads: usize) -> (sum: u32)
    requires
        vec1@.len() == vec2@.len(),
        n_threads >= 1,
    ensures
        sum == partitioned_dot(vec1@, vec2@, n_threads as int),
        sum == dot_product(vec1@, vec2@),
{
    let len: usize = vec1.len();
    let mut outcomes: Vec<WorkerOutcome> = Vec::new();
    for i in 0..n_threads
        invariant
            len == vec1@.len(),
            vec1@.len() == vec2@.len(),
            n_threads >= 1,
            outcomes@.len() == i,
            forall|k: int|
                0 <= k < i ==> outcomes@[k] == WorkerOutcome::Completed(
                    worker_partials(vec1@, vec2@, n_threads as int)[k],
                ),
    {
        let partial: u32 = chunk_product(vec1, vec2, worker_chunk(len, n_threads, i));
        outcomes.push(WorkerOutcome::Completed(partial));
    }
    let remainder: u32 = chunk_product(vec1, vec2, remainder_chunk(len, n_threads));
    proof {
        lemma_completed_workers_sum(vec1@, vec2@, n_threads as int, outcomes@);
    }
    match aggregate(remainder, outcomes.as_slice()) {
        Ok(sum) => sum,
        Err(_) => unreached(),
    }
}

/// Computes the scalar product by the partition for as many workers as the
/// machine has logical CPUs, as [`par_scalar_product_with`] does for a given
/// number of workers.
pub fn par_scalar_product(vec1: &'static [u32], vec2: &'static [u32]) -> (sum: u32)
    requires
        vec1@.len() == vec2@.len(),
    ensures
        sum == dot_product(vec1@, vec2@),
{
    let n_threads: usize = detected_parallelism();
    par_scalar_product_with(vec1, vec2, n_threads)
}

} // verus!
