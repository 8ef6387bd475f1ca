use vector_core::query::Query;
use vector_core::scorer::{ScorerError, SparseCustomQueryScorer};
use vector_core::sparse_vector::SparseVector;
use vector_core::storage::InMemorySparseStorage;

fn sv(indices: Vec<u32>, values: Vec<i64>) -> SparseVector {
    SparseVector::new(indices, values)
}

#[test]
fn sort_by_indices_sorts_ascending() {
    let mut v = sv(vec![3, 1], vec![4, 5]);
    v.sort_by_indices();
    assert_eq!(v.indices, vec![1, 3]);
    assert_eq!(v.values, vec![5, 4]);
}

#[test]
fn sort_by_indices_keeps_pairs() {
    let mut v = sv(vec![9, 2, 7, 4], vec![90, 20, 70, 40]);
    v.sort_by_indices();
    assert_eq!(v.indices, vec![2, 4, 7, 9]);
    assert_eq!(v.values, vec![20, 40, 70, 90]);
}

#[test]
fn dot_product_of_sorted_vectors() {
    let a = sv(vec![1, 3, 5], vec![1, 2, 3]);
    let b = sv(vec![1, 3], vec![5, 4]);
    assert_eq!(b.score(&a), Some(13));
    assert_eq!(a.score(&b), Some(13));
}

#[test]
fn no_overlap_scores_none() {
    let a = sv(vec![1, 3], vec![1, 2]);
    let b = sv(vec![2, 4], vec![5, 6]);
    assert_eq!(a.score(&b), None);
}

#[test]
fn stored_point_scenario() {
    let mut storage = InMemorySparseStorage::new();
    assert!(storage.insert_vector(7, sv(vec![1, 3, 5], vec![1, 2, 3])));

    let query = Query::Single(sv(vec![3, 1], vec![4, 5]));
    let mut scorer = SparseCustomQueryScorer::new(query, &storage);

    let score = scorer.score_stored(7);
    assert_eq!(score, 13);

    let counter = scorer.hardware_counter();
    assert_eq!(counter.cpu, 5);

    let counter_again = scorer.hardware_counter();
    assert_eq!(counter_again.cpu, 0);
}

#[test]
fn external_vector_scores_like_stored() {
    let storage = InMemorySparseStorage::new();
    let query = Query::Single(sv(vec![3, 1], vec![4, 5]));
    let mut scorer = SparseCustomQueryScorer::new(query, &storage);
    let external = sv(vec![1, 3, 5], vec![1, 2, 3]);
    assert_eq!(scorer.score(&external), 13);
}

#[test]
fn zero_overlap_stored_vector_scores_zero() {
    let mut storage = InMemorySparseStorage::new();
    assert!(storage.insert_vector(0, sv(vec![10, 20], vec![1, 1])));
    let query = Query::Single(sv(vec![1, 2], vec![3, 4]));
    let mut scorer = SparseCustomQueryScorer::new(query, &storage);
    assert_eq!(scorer.score_stored(0), 0);
}

#[test]
fn score_internal_always_fails() {
    let storage = InMemorySparseStorage::new();
    let query = Query::Single(sv(vec![1], vec![1]));
    let scorer = SparseCustomQueryScorer::new(query, &storage);
    assert!(matches!(scorer.score_internal(0, 1), Err(ScorerError::UnsupportedOperation)));
    assert!(matches!(scorer.score_internal(5, 5), Err(ScorerError::UnsupportedOperation)));
}

#[test]
fn counter_accumulates_per_call_and_resets() {
    let mut storage = InMemorySparseStorage::new();
    assert!(storage.insert_vector(0, sv(vec![1, 2, 3], vec![1, 1, 1])));
    let query = Query::Single(sv(vec![2], vec![10]));
    let mut scorer = SparseCustomQueryScorer::new(query, &storage);

    scorer.score_stored(0);
    scorer.score_stored(0);
    let counter = scorer.hardware_counter();
    // each call costs 1 query element + 3 stored elements
    assert_eq!(counter.cpu, 8);
    assert!(!counter.checked);

    scorer.set_hardware_counter_checked(true);
    scorer.score_stored(0);
    let counter2 = scorer.hardware_counter();
    assert_eq!(counter2.cpu, 4);
    assert!(counter2.checked);
}

#[test]
fn sum_query_adds_example_scores() {
    let mut storage = InMemorySparseStorage::new();
    assert!(storage.insert_vector(1, sv(vec![0, 2], vec![10, 100])));
    let query = Query::SumOf(vec![sv(vec![0], vec![1]), sv(vec![2], vec![2])]);
    let mut scorer = SparseCustomQueryScorer::new(query, &storage);
    // 10*1 + 100*2
    assert_eq!(scorer.score_stored(1), 210);
    assert_eq!(scorer.hardware_counter().cpu, (1 + 2) + (1 + 2));
}

#[test]
fn best_of_query_takes_maximum() {
    let mut storage = InMemorySparseStorage::new();
    assert!(storage.insert_vector(1, sv(vec![0, 2], vec![10, 100])));
    let query = Query::BestOf(vec![sv(vec![0], vec![1]), sv(vec![2], vec![2])]);
    let mut scorer = SparseCustomQueryScorer::new(query, &storage);
    assert_eq!(scorer.score_stored(1), 200);
}

#[test]
fn scorer_sorts_unsorted_examples_once() {
    let mut storage = InMemorySparseStorage::new();
    assert!(storage.insert_vector(3, sv(vec![1, 2, 3], vec![7, 8, 9])));
    // unsorted example indices would break a merge that assumed order
    let query = Query::SumOf(vec![sv(vec![3, 1], vec![1, 1]), sv(vec![2], vec![1])]);
    let mut scorer = SparseCustomQueryScorer::new(query, &storage);
    // (7 + 9) + 8
    assert_eq!(scorer.score_stored(3), 24);
}

#[test]
fn storage_rejects_unsorted_or_unsound_vectors() {
    let mut storage = InMemorySparseStorage::new();
    assert!(!storage.insert_vector(0, sv(vec![3, 1], vec![1, 2])));
    assert!(!storage.insert_vector(0, sv(vec![1, 1], vec![1, 2])));
    assert!(!storage.insert_vector(0, sv(vec![1, 2], vec![1])));
    assert!(storage.insert_vector(0, sv(vec![1, 2], vec![1, 2])));
}

#[test]
fn sum_scores_clamp_at_the_score_range() {
    // each overlap contributes 2^31 * 2^31 = 2^62; two of them exceed i64::MAX
    let big: i64 = 0x8000_0000;
    let mut storage = InMemorySparseStorage::new();
    assert!(storage.insert_vector(0, sv(vec![1], vec![big])));
    let query = Query::SumOf(vec![sv(vec![1], vec![big]), sv(vec![1], vec![big])]);
    let mut scorer = SparseCustomQueryScorer::new(query, &storage);
    assert_eq!(scorer.score_stored(0), i64::MAX);
}

#[test]
fn score_by_single_applies_the_function() {
    let q: Query<i64> = Query::Single(21);
    assert_eq!(q.score_by(|v: &i64| v * 2), 42);
    assert_eq!(q.score_by(|v: &i64| v - 21), 0);
}

#[test]
fn score_by_composites_follow_their_rule() {
    let q: Query<i64> = Query::SumOf(vec![1, 2, 3]);
    assert_eq!(q.score_by(|v: &i64| *v), 6);
    let b: Query<i64> = Query::BestOf(vec![1, 5, 3]);
    assert_eq!(b.score_by(|v: &i64| *v), 5);
}

#[test]
fn transform_maps_every_example() {
    let q: Query<i64> = Query::SumOf(vec![1, 2]);
    let r: Result<Query<i64>, &str> = q.transform(|v: i64| Ok(v * 10));
    match r {
        Ok(Query::SumOf(vs)) => assert_eq!(vs, vec![10, 20]),
        _ => panic!("expected a transformed sum query"),
    }
}

#[test]
fn transform_propagates_the_first_error() {
    let q: Query<i64> = Query::SumOf(vec![1, -2, -3]);
    let r: Result<Query<i64>, String> =
        q.transform(|v: i64| if v >= 0 { Ok(v) } else { Err(format!("bad {}", v)) });
    match r {
        Err(msg) => assert_eq!(msg, "bad -2"),
        Ok(_) => panic!("expected the transform to fail"),
    }
}
