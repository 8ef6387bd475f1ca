use vector_core::distances::Distance;
use vector_core::named_vectors::NamedVectors;
use vector_core::sparse_vector::SparseVector;
use vector_core::vectors::{Vector, VectorRef};

fn dense_of(r: Option<VectorRef<'_>>) -> Vec<i64> {
    match r {
        Some(VectorRef::Dense(s)) => s.to_vec(),
        _ => panic!("expected a dense vector"),
    }
}

fn sparse_of(r: Option<VectorRef<'_>>) -> (Vec<u32>, Vec<i64>) {
    match r {
        Some(VectorRef::Sparse(v)) => (v.indices.clone(), v.values.clone()),
        _ => panic!("expected a sparse vector"),
    }
}

#[test]
fn missing_name_gives_none_and_not_contained() {
    let m = NamedVectors::new();
    assert!(m.get("anything").is_none());
    assert!(!m.contains_key("anything"));
    assert!(m.is_empty());

    let m2 = NamedVectors::from(vec![("text".to_string(), vec![1, 2])]);
    assert!(m2.get("image").is_none());
    assert!(!m2.contains_key("image"));
    assert!(m2.contains_key("text"));
}

#[test]
fn insert_owned_then_get_returns_equal_value() {
    let mut m = NamedVectors::new();
    m.insert("text".to_string(), Vector::Dense(vec![7, -3, 11]));
    assert_eq!(dense_of(m.get("text")), vec![7, -3, 11]);
    assert_eq!(m.len(), 1);
}

#[test]
fn insert_borrowed_then_get_returns_equal_value() {
    let components: Vec<i64> = vec![7, -3, 11];
    let sv = SparseVector::new(vec![2, 9], vec![4, 5]);
    let mut m = NamedVectors::new();
    m.insert_ref("text", VectorRef::Dense(&components));
    m.insert_ref("tags", VectorRef::Sparse(&sv));
    assert_eq!(dense_of(m.get("text")), vec![7, -3, 11]);
    let (idx, vals) = sparse_of(m.get("tags"));
    assert_eq!(idx, vec![2, 9]);
    assert_eq!(vals, vec![4, 5]);
}

#[test]
fn insert_overwrites_on_name_collision() {
    let mut m = NamedVectors::new();
    m.insert("text".to_string(), Vector::Dense(vec![1]));
    m.insert("text".to_string(), Vector::Dense(vec![2, 3]));
    assert_eq!(m.len(), 1);
    assert_eq!(dense_of(m.get("text")), vec![2, 3]);
}

#[test]
fn keys_and_iter_follow_insertion_order() {
    let mut m = NamedVectors::new();
    m.insert("b".to_string(), Vector::Dense(vec![2]));
    m.insert("a".to_string(), Vector::Dense(vec![1]));
    m.insert("c".to_string(), Vector::Dense(vec![3]));
    assert_eq!(m.keys(), vec!["b", "a", "c"]);
    let names: Vec<String> = m.iter().into_iter().map(|(n, _)| n.to_string()).collect();
    assert_eq!(names, vec!["b", "a", "c"]);
}

#[test]
fn bulk_constructors_agree() {
    let pairs = vec![("x".to_string(), vec![1i64, 2]), ("y".to_string(), vec![3i64])];
    let m1 = NamedVectors::from(pairs.clone());
    let m2 = NamedVectors::from_map(pairs.clone());
    let m3 = NamedVectors::from_map_ref(&pairs);
    for m in [&m1, &m2, &m3] {
        assert_eq!(m.len(), 2);
        assert_eq!(dense_of(m.get("x")), vec![1, 2]);
        assert_eq!(dense_of(m.get("y")), vec![3]);
    }
    let components: Vec<i64> = vec![9, 9];
    let single = NamedVectors::from_ref("only", VectorRef::Dense(&components));
    assert_eq!(single.len(), 1);
    assert_eq!(dense_of(single.get("only")), vec![9, 9]);
}

#[test]
fn owned_map_round_trip_keeps_content() {
    let sv = SparseVector::new(vec![1, 5], vec![10, 20]);
    let mut m = NamedVectors::new();
    m.insert("dense".to_string(), Vector::Dense(vec![1, 2, 3]));
    m.insert_ref("sparse", VectorRef::Sparse(&sv));
    let owned = m.into_owned_map();
    assert_eq!(owned.len(), 2);

    let mut rebuilt = NamedVectors::new();
    for (name, vector) in owned {
        rebuilt.insert(name, vector);
    }
    assert_eq!(rebuilt.len(), 2);
    assert_eq!(dense_of(rebuilt.get("dense")), vec![1, 2, 3]);
    let (idx, vals) = sparse_of(rebuilt.get("sparse"));
    assert_eq!(idx, vec![1, 5]);
    assert_eq!(vals, vec![10, 20]);
}

#[test]
fn preprocess_identity_is_idempotent_and_spares_sparse() {
    let sv = SparseVector::new(vec![4, 8], vec![-1, 1]);
    let mut m = NamedVectors::new();
    m.insert("emb".to_string(), Vector::Dense(vec![3, -4]));
    m.insert_ref("tags", VectorRef::Sparse(&sv));

    m.preprocess(|_name: &str| Distance::Dot);
    assert_eq!(dense_of(m.get("emb")), vec![3, -4]);
    let (idx, vals) = sparse_of(m.get("tags"));
    assert_eq!(idx, vec![4, 8]);
    assert_eq!(vals, vec![-1, 1]);

    m.preprocess(|_name: &str| Distance::Dot);
    assert_eq!(dense_of(m.get("emb")), vec![3, -4]);
    let (idx2, vals2) = sparse_of(m.get("tags"));
    assert_eq!(idx2, vec![4, 8]);
    assert_eq!(vals2, vec![-1, 1]);
}

#[test]
fn preprocess_can_pick_distance_by_name() {
    let mut m = NamedVectors::new();
    m.insert("a".to_string(), Vector::Dense(vec![5]));
    m.insert("b".to_string(), Vector::Dense(vec![6]));
    m.preprocess(|name: &str| if name == "a" { Distance::Euclid } else { Distance::Manhattan });
    assert_eq!(dense_of(m.get("a")), vec![5]);
    assert_eq!(dense_of(m.get("b")), vec![6]);
}
