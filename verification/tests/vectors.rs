//! Vectors of points: the two formats, splitting and lookup by name.

use qdrant_client::qdrant as client;
use qdrant_datafusion::arrow::deserialize::{
    build_vector_lookup, can_read_all, convert_to_multi_vector, Vector,
};
use qdrant_datafusion::error::Error;
use qdrant_datafusion::qdrant::{
    vector_output, vectors_output, DenseVector, MultiDenseVector, NamedVectorsOutput,
    SparseIndices, SparseVector, VectorOutput, VectorsOutput,
};

fn flat(
    data: Vec<f32>,
    indices: Option<Vec<u32>>,
    vectors_count: Option<u32>,
) -> VectorOutput<f32> {
    VectorOutput {
        data,
        indices: indices.map(|data| SparseIndices { data }),
        vectors_count,
        vector: None,
    }
}

fn current(vector: vector_output::Vector<f32>) -> VectorOutput<f32> {
    VectorOutput { data: vec![], indices: None, vectors_count: None, vector: Some(vector) }
}

fn named(vectors: Vec<(&str, VectorOutput<f32>)>) -> Option<VectorsOutput<f32>> {
    let vectors = vectors.into_iter().map(|(name, output)| (name.to_string(), output)).collect();
    Some(VectorsOutput {
        vectors_options: Some(vectors_output::VectorsOptions::Vectors(NamedVectorsOutput {
            vectors,
        })),
    })
}

#[test]
fn test_convert_to_multi_vector_error() {
    // Test the error path when data length is not divisible by vectors count
    let data = vec![1.0, 2.0, 3.0]; // length = 3
    let vectors_count = 2; // 3 % 2 != 0

    let result = convert_to_multi_vector(&data, vectors_count);

    assert!(result.is_err());
    if let Err(Error::MalformedMultiVector(error)) = result {
        let error_msg = error.message();
        assert!(error_msg.contains("Malformed multi vector"));
        assert!(error_msg.contains("data length 3 is not divisible by vectors count 2"));
    } else {
        panic!("Expected Error::MalformedMultiVector");
    }
}

#[test]
fn test_vector_from_new_format() {
    // Test newer format dense vector
    let dense_vector_output = VectorOutput {
        vector: Some(vector_output::Vector::Dense(DenseVector { data: vec![1.0, 2.0, 3.0] })),
        data: vec![], // Should be ignored when vector.is_some()
        indices: None,
        vectors_count: None,
    };

    let result = Vector::from_vector_output(dense_vector_output);
    if let Some(Vector::Dense(data)) = result {
        assert_eq!(data, vec![1.0, 2.0, 3.0]);
    } else {
        panic!("Expected Dense vector");
    }

    // Test newer format sparse vector
    let sparse_vector_output = VectorOutput {
        vector: Some(vector_output::Vector::Sparse(SparseVector {
            indices: vec![0, 2, 5],
            values: vec![0.1, 0.2, 0.3],
        })),
        data: vec![], // Should be ignored
        indices: None,
        vectors_count: None,
    };

    let result = Vector::from_vector_output(sparse_vector_output);
    if let Some(Vector::Sparse(sparse)) = result {
        assert_eq!(sparse.indices, vec![0, 2, 5]);
        assert_eq!(sparse.values, vec![0.1, 0.2, 0.3]);
    } else {
        panic!("Expected Sparse vector");
    }

    // Test newer format multi-dense vector
    let multi_vector_output = VectorOutput {
        vector: Some(vector_output::Vector::MultiDense(MultiDenseVector {
            vectors: vec![
                DenseVector { data: vec![1.0, 2.0] },
                DenseVector { data: vec![3.0, 4.0] },
            ],
        })),
        data: vec![], // Should be ignored
        indices: None,
        vectors_count: None,
    };

    let result = Vector::from_vector_output(multi_vector_output);
    if let Some(Vector::MultiDense(multi)) = result {
        assert_eq!(multi, vec![vec![1.0, 2.0], vec![3.0, 4.0]]);
    } else {
        panic!("Expected MultiDense vector");
    }
}

#[test]
fn splits_into_equal_vectors() {
    let result = convert_to_multi_vector(&[1.0, 2.0, 3.0, 4.0], 2).unwrap();
    assert_eq!(result, vec![vec![1.0, 2.0], vec![3.0, 4.0]]);

    let result = convert_to_multi_vector(&[1.0, 2.0, 3.0], 1).unwrap();
    assert_eq!(result, vec![vec![1.0, 2.0, 3.0]]);

    let result = convert_to_multi_vector(&[1.0, 2.0, 3.0], 3).unwrap();
    assert_eq!(result, vec![vec![1.0], vec![2.0], vec![3.0]]);
}

#[test]
fn splitting_loses_nothing() {
    let data: Vec<u32> = (0..60).collect();
    for count in [1u32, 2, 3, 4, 5, 6, 10, 12, 15, 20, 30, 60] {
        let vectors = convert_to_multi_vector(&data, count).unwrap();
        assert_eq!(vectors.len(), count as usize);
        assert!(vectors.iter().all(|vector| vector.len() == 60 / count as usize));
        assert_eq!(vectors.concat(), data);
    }
}

#[test]
fn uneven_counts_are_malformed() {
    for count in [0u32, 2, 4, 6, u32::MAX] {
        match convert_to_multi_vector(&[1.0, 2.0, 3.0, 4.0, 5.0], count) {
            Err(Error::MalformedMultiVector(error)) => {
                assert_eq!(error.data_len, 5);
                assert_eq!(error.vectors_count, count);
                assert_eq!(
                    error.message(),
                    format!(
                        "Malformed multi vector: data length 5 is not divisible by vectors count {}",
                        count
                    )
                );
            }
            _ => panic!("Expected a malformed multi vector"),
        }
    }
}

#[test]
fn flat_dense_vector() {
    match Vector::from_vector_output(flat(vec![1.0, 2.0], None, None)) {
        Some(Vector::Dense(data)) => assert_eq!(data, vec![1.0, 2.0]),
        _ => panic!("Expected Dense vector"),
    }
}

#[test]
fn flat_sparse_vector() {
    match Vector::from_vector_output(flat(vec![0.5, 0.25], Some(vec![3, 9]), None)) {
        Some(Vector::Sparse(sparse)) => {
            assert_eq!(sparse.indices, vec![3, 9]);
            assert_eq!(sparse.values, vec![0.5, 0.25]);
        }
        _ => panic!("Expected Sparse vector"),
    }
}

#[test]
fn flat_sparse_vector_without_values() {
    match Vector::from_vector_output(flat(vec![], Some(vec![]), None)) {
        Some(Vector::Sparse(sparse)) => {
            assert!(sparse.indices.is_empty());
            assert!(sparse.values.is_empty());
        }
        _ => panic!("Expected Sparse vector"),
    }
}

#[test]
fn flat_multi_vector() {
    match Vector::from_vector_output(flat(vec![1.0, 2.0, 3.0, 4.0], None, Some(2))) {
        Some(Vector::MultiDense(vectors)) => {
            assert_eq!(vectors, vec![vec![1.0, 2.0], vec![3.0, 4.0]]);
        }
        _ => panic!("Expected MultiDense vector"),
    }
}

#[test]
fn count_that_splits_comes_before_indices() {
    match Vector::from_vector_output(flat(vec![1.0, 2.0], Some(vec![7, 8]), Some(1))) {
        Some(Vector::MultiDense(vectors)) => assert_eq!(vectors, vec![vec![1.0, 2.0]]),
        _ => panic!("Expected MultiDense vector"),
    }
}

#[test]
fn count_that_does_not_split_is_passed_over() {
    match Vector::from_vector_output(flat(vec![1.0, 2.0, 3.0], None, Some(2))) {
        Some(Vector::Dense(data)) => assert_eq!(data, vec![1.0, 2.0, 3.0]),
        _ => panic!("Expected Dense vector"),
    }
    match Vector::from_vector_output(flat(vec![1.0, 2.0, 3.0], Some(vec![1, 2, 3]), Some(0))) {
        Some(Vector::Sparse(sparse)) => {
            assert_eq!(sparse.indices, vec![1, 2, 3]);
            assert_eq!(sparse.values, vec![1.0, 2.0, 3.0]);
        }
        _ => panic!("Expected Sparse vector"),
    }
}

#[test]
fn nothing_is_no_vector() {
    assert!(Vector::from_vector_output(flat(vec![], None, None)).is_none());
}

#[test]
fn empty_dense_vector_in_current_format_is_kept() {
    let output = current(vector_output::Vector::Dense(DenseVector { data: vec![] }));
    match Vector::from_vector_output(output) {
        Some(Vector::Dense(data)) => assert!(data.is_empty()),
        _ => panic!("Expected Dense vector"),
    }
}

#[test]
fn current_format_comes_first() {
    let output = VectorOutput {
        data: vec![9.0, 9.0],
        indices: Some(SparseIndices { data: vec![4, 5] }),
        vectors_count: Some(2),
        vector: Some(vector_output::Vector::Dense(DenseVector { data: vec![1.0] })),
    };
    match Vector::from_vector_output(output) {
        Some(Vector::Dense(data)) => assert_eq!(data, vec![1.0]),
        _ => panic!("Expected Dense vector"),
    }
}

#[test]
fn both_formats_agree() {
    let vectors = vec![vec![1.0, 2.0], vec![3.0, 4.0], vec![5.0, 6.0]];
    let multi = MultiDenseVector {
        vectors: vectors.iter().map(|data| DenseVector { data: data.clone() }).collect(),
    };
    let new = Vector::from_vector_output(current(vector_output::Vector::MultiDense(multi)));
    let old = Vector::from_vector_output(flat(vectors.concat(), None, Some(3)));
    match (new, old) {
        (Some(Vector::MultiDense(new)), Some(Vector::MultiDense(old))) => {
            assert_eq!(new, vectors);
            assert_eq!(old, vectors);
        }
        _ => panic!("Expected MultiDense vectors"),
    }
}

#[test]
fn unnamed_vector_goes_by_vector() {
    let table = build_vector_lookup(Some(VectorsOutput {
        vectors_options: Some(vectors_output::VectorsOptions::Vector(flat(
            vec![1.0],
            None,
            None,
        ))),
    }));
    assert_eq!(table.len(), 1);
    assert!(matches!(table.get("vector"), Some(Vector::Dense(data)) if *data == vec![1.0]));
}

#[test]
fn unnamed_vector_without_data_is_left_out() {
    let table = build_vector_lookup(Some(VectorsOutput {
        vectors_options: Some(vectors_output::VectorsOptions::Vector(flat(vec![], None, None))),
    }));
    assert_eq!(table.len(), 0);
}

#[test]
fn named_vectors_go_by_name() {
    let table = build_vector_lookup(named(vec![
        ("text", flat(vec![1.0, 2.0], None, None)),
        ("keywords", flat(vec![0.5], Some(vec![7]), None)),
        ("empty", flat(vec![], None, None)),
        ("colbert", flat(vec![1.0, 2.0], None, Some(2))),
    ]));
    assert_eq!(table.len(), 3);
    assert!(matches!(table.get("text"), Some(Vector::Dense(data)) if *data == vec![1.0, 2.0]));
    assert!(matches!(table.get("keywords"), Some(Vector::Sparse(sparse))
        if sparse.indices == vec![7] && sparse.values == vec![0.5]));
    assert!(matches!(table.get("colbert"), Some(Vector::MultiDense(vectors))
        if *vectors == vec![vec![1.0], vec![2.0]]));
    assert!(table.get("empty").is_none());
    assert!(table.get("vector").is_none());
}

#[test]
fn order_of_named_vectors_does_not_matter() {
    let one = build_vector_lookup(named(vec![
        ("a", flat(vec![1.0], None, None)),
        ("b", flat(vec![2.0], None, None)),
    ]));
    let other = build_vector_lookup(named(vec![
        ("b", flat(vec![2.0], None, None)),
        ("a", flat(vec![1.0], None, None)),
    ]));
    for table in [one, other] {
        assert_eq!(table.len(), 2);
        assert!(matches!(table.get("a"), Some(Vector::Dense(data)) if *data == vec![1.0]));
        assert!(matches!(table.get("b"), Some(Vector::Dense(data)) if *data == vec![2.0]));
    }
}

#[test]
fn no_vectors_give_an_empty_lookup() {
    assert_eq!(build_vector_lookup::<f32>(None).len(), 0);
    assert_eq!(build_vector_lookup::<f32>(Some(VectorsOutput { vectors_options: None })).len(), 0);
}

#[test]
fn a_count_of_vectors_needs_data() {
    let good = || flat(vec![1.0], None, Some(3));
    let bad = || flat(vec![], Some(vec![]), Some(3));
    let unnamed = |output| {
        Some(VectorsOutput {
            vectors_options: Some(vectors_output::VectorsOptions::Vector(output)),
        })
    };
    assert!(can_read_all::<f32>(&None));
    assert!(can_read_all::<f32>(&Some(VectorsOutput { vectors_options: None })));
    assert!(can_read_all(&unnamed(good())));
    assert!(!can_read_all(&unnamed(bad())));
    assert!(can_read_all(&unnamed(flat(vec![], None, None))));
    assert!(can_read_all(&named(vec![("a", good()), ("b", good())])));
    assert!(!can_read_all(&named(vec![("a", good()), ("b", bad())])));
    let ignored = VectorOutput {
        vector: Some(vector_output::Vector::Dense(DenseVector { data: vec![] })),
        ..bad()
    };
    assert!(can_read_all(&unnamed(ignored)));
}

#[test]
#[allow(deprecated)]
fn the_client_splits_the_same_way() {
    let all: Vec<f32> = (0..24).map(|n| n as f32 / 2.0).collect();
    for len in 1..=24 {
        let data = all[..len].to_vec();
        for count in 0u32..=26 {
            let multi = client::Vector {
                data: data.clone(),
                indices: None,
                vectors_count: Some(count),
                vector: None,
            };
            let theirs = multi.try_into_multi();
            match convert_to_multi_vector(&data, count) {
                Ok(ours) => assert_eq!(ours, theirs.unwrap()),
                Err(_) => assert!(theirs.is_err()),
            }
        }
    }
}
