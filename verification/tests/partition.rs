use scalar_products::partition::{
    aggregate, chunk_product, chunk_size, par_scalar_product_with, remainder_chunk, worker_chunk,
    Chunk, WorkerFailure, WorkerOutcome,
};
use scalar_products::scalar_product;
use scalar_products::work_stealing::wrapped_product;

#[test]
fn chunk_size_is_integer_division() {
    assert_eq!(chunk_size(10, 3), 3);
    assert_eq!(chunk_size(1_000_003, 8), 125_000);
    assert_eq!(chunk_size(12, 4), 3);
    assert_eq!(chunk_size(7, 1), 7);
}

#[test]
fn chunk_size_is_zero_for_more_workers_than_items() {
    assert_eq!(chunk_size(3, 4), 0);
    assert_eq!(chunk_size(0, 5), 0);
}

#[test]
fn worker_chunks_follow_one_another() {
    assert_eq!(worker_chunk(10, 3, 0), Chunk { start: 0, end: 3 });
    assert_eq!(worker_chunk(10, 3, 1), Chunk { start: 3, end: 6 });
    assert_eq!(worker_chunk(10, 3, 2), Chunk { start: 6, end: 9 });
    assert_eq!(remainder_chunk(10, 3), Chunk { start: 9, end: 10 });
}

#[test]
fn remainder_is_empty_when_workers_divide_length() {
    assert_eq!(worker_chunk(12, 4, 3), Chunk { start: 9, end: 12 });
    assert_eq!(remainder_chunk(12, 4), Chunk { start: 12, end: 12 });
}

#[test]
fn remainder_takes_everything_when_workers_outnumber_items() {
    for i in 0..5 {
        assert_eq!(worker_chunk(3, 5, i), Chunk { start: 0, end: 0 });
    }
    assert_eq!(remainder_chunk(3, 5), Chunk { start: 0, end: 3 });
}

#[test]
fn every_index_is_counted_once() {
    for len in 0..40usize {
        for n_threads in 1..12usize {
            let mut count = vec![0u32; len];
            for i in 0..n_threads {
                let chunk = worker_chunk(len, n_threads, i);
                for idx in chunk.start..chunk.end {
                    count[idx] += 1;
                }
            }
            let rest = remainder_chunk(len, n_threads);
            assert_eq!(rest.end, len);
            assert_eq!(rest.end - rest.start, len % n_threads);
            for idx in rest.start..rest.end {
                count[idx] += 1;
            }
            assert!(count.iter().all(|c| *c == 1));
        }
    }
}

#[test]
fn chunk_product_reduces_only_its_range() {
    let a = [1, 2, 3, 4, 5];
    let b = [10, 20, 30, 40, 50];
    assert_eq!(chunk_product(&a, &b, Chunk { start: 1, end: 3 }), 40 + 90);
    assert_eq!(chunk_product(&a, &b, Chunk { start: 0, end: 5 }), 550);
    assert_eq!(chunk_product(&a, &b, Chunk { start: 4, end: 4 }), 0);
}

#[test]
fn result_does_not_depend_on_worker_count() {
    let a: Vec<u32> = (0..11).map(|x| 0x1000_0000 + x).collect();
    let b: Vec<u32> = (0..11).map(|x| 0xF000_0000 - 3 * x).collect();
    let want = scalar_product(&a, &b);
    assert_eq!(par_scalar_product_with(&a, &b, 1), want);
    assert_eq!(par_scalar_product_with(&a, &b, 2), want);
    assert_eq!(par_scalar_product_with(&a, &b, 3), want);
    assert_eq!(par_scalar_product_with(&a, &b, 11), want);
    assert_eq!(par_scalar_product_with(&a, &b, 12), want);
    assert_eq!(par_scalar_product_with(&a, &b, 1000), want);
}

#[test]
fn partitioned_product_of_small_input() {
    let a = [3, 3, 3];
    let b = [2, 2, 2];
    for n_threads in 1..6 {
        assert_eq!(par_scalar_product_with(&a, &b, n_threads), 18);
    }
    assert_eq!(par_scalar_product_with(&[], &[], 4), 0);
}

#[test]
fn aggregate_sums_remainder_and_partials() {
    let outcomes = [
        WorkerOutcome::Completed(6),
        WorkerOutcome::Completed(6),
        WorkerOutcome::Completed(0),
    ];
    assert_eq!(aggregate(6, &outcomes), Ok(18));
    assert_eq!(aggregate(5, &[]), Ok(5));
}

#[test]
fn aggregate_wraps_around() {
    let outcomes = [WorkerOutcome::Completed(u32::MAX), WorkerOutcome::Completed(4)];
    assert_eq!(aggregate(7, &outcomes), Ok(10));
}

#[test]
fn failed_worker_fails_the_reduction() {
    let outcomes = [
        WorkerOutcome::Completed(6),
        WorkerOutcome::Failed,
        WorkerOutcome::Completed(6),
    ];
    assert_eq!(aggregate(6, &outcomes), Err(WorkerFailure { worker: 1 }));
}

#[test]
fn first_failed_worker_is_reported() {
    let outcomes = [
        WorkerOutcome::Failed,
        WorkerOutcome::Completed(1),
        WorkerOutcome::Failed,
    ];
    assert_eq!(aggregate(0, &outcomes), Err(WorkerFailure { worker: 0 }));
    let late = [
        WorkerOutcome::Completed(1),
        WorkerOutcome::Completed(1),
        WorkerOutcome::Failed,
    ];
    assert_eq!(aggregate(0, &late), Err(WorkerFailure { worker: 2 }));
}

#[test]
fn driver_built_from_the_pieces_matches() {
    let a: Vec<u32> = (0..1000).map(|x| x * 4_000_037).collect();
    let b: Vec<u32> = (0..1000).map(|x| 0xFFFF_FFFF - x).collect();
    let n_threads = 7;
    let mut outcomes = Vec::new();
    for i in 0..n_threads {
        let partial = chunk_product(&a, &b, worker_chunk(a.len(), n_threads, i));
        outcomes.push(WorkerOutcome::Completed(partial));
    }
    let remainder = chunk_product(&a, &b, remainder_chunk(a.len(), n_threads));
    assert_eq!(aggregate(remainder, &outcomes), Ok(scalar_product(&a, &b)));
}

#[test]
fn wrapped_product_multiplies_modulo_two_to_the_32() {
    assert_eq!(wrapped_product(3, 2), 6);
    assert_eq!(wrapped_product(0, 77), 0);
    assert_eq!(wrapped_product(0x1_0000, 0x1_0000), 0);
    assert_eq!(wrapped_product(u32::MAX, u32::MAX), 1);
}
