//! Record batches out of points.

use std::collections::HashMap;
use std::sync::Arc;

use datafusion::arrow::array::{Array, ArrayRef, Float32Array, ListArray, StringArray, UInt32Array};
use datafusion::arrow::datatypes::{DataType, Field, Schema, SchemaRef};
use datafusion::arrow::record_batch::RecordBatch;
use qdrant_client::qdrant::value::Kind;
use qdrant_client::qdrant::{ListValue, Struct, Value};
use qdrant_datafusion::arrow::deserialize::{build_vector_lookup, QdrantRecordBatchBuilder};
use qdrant_datafusion::arrow::extractor::{can_allocate, Row};
use qdrant_datafusion::arrow::schema::{is_multi_vector_field, read_fields};
use qdrant_datafusion::error::Error;
use qdrant_datafusion::payload::payload_text;
use qdrant_datafusion::qdrant::point_id::PointIdOptions;
use qdrant_datafusion::qdrant::{
    vector_output, vectors_output, DenseVector, MultiDenseVector, NamedVectorsOutput, PointId,
    ScoredPoint, SparseVector, VectorOutput, VectorsOutput,
};

fn list(item: DataType) -> DataType {
    DataType::List(Arc::new(Field::new("item", item, true)))
}

fn schema(fields: Vec<Field>) -> SchemaRef {
    Arc::new(Schema::new(fields))
}

/// The schema of a collection with vectors of every kind.
fn collection() -> SchemaRef {
    schema(vec![
        Field::new("id", DataType::Utf8, false),
        Field::new("payload", DataType::Utf8, true),
        Field::new("text", list(DataType::Float32), true),
        Field::new("colbert", list(list(DataType::Float32)), true),
        Field::new("keywords_indices", list(DataType::UInt32), true),
        Field::new("keywords_values", list(DataType::Float32), true),
    ])
}

fn bits(floats: &[f32]) -> Vec<u32> {
    floats.iter().map(|float| float.to_bits()).collect()
}

fn output(vector: vector_output::Vector<u32>) -> VectorOutput<u32> {
    VectorOutput { data: vec![], indices: None, vectors_count: None, vector: Some(vector) }
}

fn dense(floats: &[f32]) -> VectorOutput<u32> {
    output(vector_output::Vector::Dense(DenseVector { data: bits(floats) }))
}

fn sparse(indices: &[u32], values: &[f32]) -> VectorOutput<u32> {
    output(vector_output::Vector::Sparse(SparseVector {
        indices: indices.to_vec(),
        values: bits(values),
    }))
}

fn multi(vectors: &[&[f32]]) -> VectorOutput<u32> {
    let vectors = vectors.iter().map(|floats| DenseVector { data: bits(floats) }).collect();
    output(vector_output::Vector::MultiDense(MultiDenseVector { vectors }))
}

fn named(vectors: Vec<(&str, VectorOutput<u32>)>) -> Option<VectorsOutput<u32>> {
    let vectors = vectors.into_iter().map(|(name, output)| (name.to_string(), output)).collect();
    Some(VectorsOutput {
        vectors_options: Some(vectors_output::VectorsOptions::Vectors(NamedVectorsOutput {
            vectors,
        })),
    })
}

fn unnamed(output: VectorOutput<u32>) -> Option<VectorsOutput<u32>> {
    Some(VectorsOutput { vectors_options: Some(vectors_output::VectorsOptions::Vector(output)) })
}

fn num(n: u64) -> Option<PointId> {
    Some(PointId { point_id_options: Some(PointIdOptions::Num(n)) })
}

fn text_value(text: &str) -> Value {
    Value { kind: Some(Kind::StringValue(text.to_string())) }
}

fn payload(entries: Vec<(&str, Value)>) -> HashMap<String, Value> {
    entries.into_iter().map(|(key, value)| (key.to_string(), value)).collect()
}

fn point(n: u64, vectors: Option<VectorsOutput<u32>>) -> ScoredPoint {
    ScoredPoint { id: num(n), payload: HashMap::new(), vectors }
}

fn build(schema: SchemaRef, points: Vec<ScoredPoint>) -> Result<RecordBatch, Error> {
    let mut builder = QdrantRecordBatchBuilder::new(schema, points.len());
    for point in points {
        builder.append_point(point).unwrap();
    }
    builder.finish().map(|batch| batch.record_batch)
}

fn texts(array: &ArrayRef) -> Vec<Option<String>> {
    let array = array.as_any().downcast_ref::<StringArray>().unwrap();
    array.iter().map(|text| text.map(|text| text.to_string())).collect()
}

fn rows(array: &ArrayRef) -> Vec<Option<ArrayRef>> {
    array.as_any().downcast_ref::<ListArray>().unwrap().iter().collect()
}

fn float_values(array: &ArrayRef) -> Vec<f32> {
    array.as_any().downcast_ref::<Float32Array>().unwrap().values().to_vec()
}

fn floats(array: &ArrayRef) -> Vec<Option<Vec<f32>>> {
    rows(array).iter().map(|row| row.as_ref().map(float_values)).collect()
}

fn indices(array: &ArrayRef) -> Vec<Option<Vec<u32>>> {
    rows(array)
        .iter()
        .map(|row| {
            row.as_ref().map(|row| {
                row.as_any().downcast_ref::<UInt32Array>().unwrap().values().to_vec()
            })
        })
        .collect()
}

fn float_lists(array: &ArrayRef) -> Vec<Option<Vec<Vec<f32>>>> {
    rows(array)
        .iter()
        .map(|row| row.as_ref().map(|row| floats(row).into_iter().flatten().collect()))
        .collect()
}

#[test]
fn vectors_of_every_kind() {
    let vectors = named(vec![
        ("text", dense(&[1.5, -2.0])),
        ("colbert", multi(&[&[0.1, 0.2], &[0.3]])),
        ("keywords", sparse(&[3, 14], &[0.8, 0.5])),
    ]);
    let first = ScoredPoint {
        id: num(7),
        payload: payload(vec![("city", text_value("Berlin"))]),
        vectors,
    };
    let uuid = "550e8400-e29b-41d4-a716-446655440000";
    let second = ScoredPoint {
        id: Some(PointId { point_id_options: Some(PointIdOptions::Uuid(uuid.to_string())) }),
        payload: HashMap::new(),
        vectors: named(vec![("text", dense(&[4.0]))]),
    };
    let batch = build(collection(), vec![first, second, point(8, None)]).unwrap();

    assert_eq!(batch.num_rows(), 3);
    assert_eq!(batch.num_columns(), 6);
    assert_eq!(batch.schema(), collection());
    assert_eq!(
        texts(batch.column(0)),
        vec![Some("7".to_string()), Some(uuid.to_string()), Some("8".to_string())]
    );
    assert_eq!(texts(batch.column(1)), vec![Some("{\"city\":\"Berlin\"}".to_string()), None, None]);
    assert_eq!(floats(batch.column(2)), vec![Some(vec![1.5, -2.0]), Some(vec![4.0]), None]);
    assert_eq!(float_lists(batch.column(3)), vec![Some(vec![vec![0.1, 0.2], vec![0.3]]), None, None]);
    assert_eq!(indices(batch.column(4)), vec![Some(vec![3, 14]), None, None]);
    assert_eq!(floats(batch.column(5)), vec![Some(vec![0.8, 0.5]), None, None]);
}

#[test]
fn points_that_lack_some_of_the_vectors() {
    let fields = schema(vec![
        Field::new("id", DataType::Utf8, false),
        Field::new("text_embedding", list(DataType::Float32), true),
        Field::new("image_embedding", list(DataType::Float32), true),
        Field::new("keywords_indices", list(DataType::UInt32), true),
        Field::new("keywords_values", list(DataType::Float32), true),
    ]);
    let keywords = || ("keywords", sparse(&[1], &[1.0]));
    let text = || ("text_embedding", dense(&[1.0, 2.0]));
    let image = || ("image_embedding", dense(&[3.0, 4.0]));
    let points = vec![
        point(1, named(vec![text(), keywords()])),
        point(2, named(vec![image(), keywords()])),
        point(3, named(vec![text(), image(), keywords()])),
    ];
    let batch = build(fields, points).unwrap();
    let t = Some(vec![1.0, 2.0]);
    let i = Some(vec![3.0, 4.0]);
    assert_eq!(floats(batch.column(1)), vec![t.clone(), None, t]);
    assert_eq!(floats(batch.column(2)), vec![None, i.clone(), i]);
    assert_eq!(indices(batch.column(3)), vec![Some(vec![1]); 3]);
    assert_eq!(floats(batch.column(4)), vec![Some(vec![1.0]); 3]);
}

#[test]
fn columns_follow_the_order_of_the_fields() {
    let fields = schema(vec![
        Field::new("vector", list(DataType::Float32), true),
        Field::new("payload", DataType::Utf8, true),
        Field::new("id", DataType::Utf8, false),
    ]);
    let batch = build(fields.clone(), vec![point(5, unnamed(dense(&[1.0, 2.0])))]).unwrap();
    assert_eq!(batch.schema(), fields);
    assert_eq!(floats(batch.column(0)), vec![Some(vec![1.0, 2.0])]);
    assert_eq!(texts(batch.column(1)), vec![None]);
    assert_eq!(texts(batch.column(2)), vec![Some("5".to_string())]);
}

#[test]
fn rows_follow_the_order_of_the_points() {
    let fields = schema(vec![Field::new("id", DataType::Utf8, false)]);
    let points = (0..100).map(|n| point(99 - n, None)).collect();
    let batch = build(fields, points).unwrap();
    let expected: Vec<_> = (0..100).map(|n: u64| Some((99 - n).to_string())).collect();
    assert_eq!(texts(batch.column(0)), expected);
}

#[test]
fn vectors_in_the_flat_format() {
    let fields = schema(vec![
        Field::new("vector", list(list(DataType::Float32)), true),
    ]);
    let flat = VectorOutput {
        data: bits(&[1.0, 2.0, 3.0, 4.0]),
        indices: None,
        vectors_count: Some(2),
        vector: None,
    };
    let batch = build(fields, vec![point(1, unnamed(flat))]).unwrap();
    assert_eq!(float_lists(batch.column(0)), vec![Some(vec![vec![1.0, 2.0], vec![3.0, 4.0]])]);
}

#[test]
fn vectors_of_another_form_than_the_field_are_null() {
    let fields = schema(vec![
        Field::new("a", list(DataType::Float32), true),
        Field::new("b", list(list(DataType::Float32)), true),
        Field::new("c_indices", list(DataType::UInt32), true),
        Field::new("c_values", list(DataType::Float32), true),
    ]);
    let vectors = named(vec![
        ("a", multi(&[&[1.0]])),
        ("b", dense(&[1.0])),
        ("c", dense(&[1.0])),
        ("vector", dense(&[1.0])),
    ]);
    let batch = build(fields, vec![point(1, vectors)]).unwrap();
    for column in batch.columns() {
        assert_eq!(column.len(), 1);
        assert!(column.is_null(0));
    }
}

#[test]
fn empty_vectors_are_not_null() {
    let fields = schema(vec![
        Field::new("a", list(DataType::Float32), true),
        Field::new("b", list(list(DataType::Float32)), true),
        Field::new("c_indices", list(DataType::UInt32), true),
    ]);
    let vectors = named(vec![("a", dense(&[])), ("b", multi(&[&[], &[2.0]])), ("c", sparse(&[], &[]))]);
    let batch = build(fields, vec![point(1, vectors)]).unwrap();
    assert_eq!(floats(batch.column(0)), vec![Some(vec![])]);
    assert_eq!(float_lists(batch.column(1)), vec![Some(vec![vec![], vec![2.0]])]);
    assert_eq!(indices(batch.column(2)), vec![Some(vec![])]);
}

#[test]
fn floats_keep_their_bits() {
    let odd = [f32::NAN.to_bits(), (-0.0f32).to_bits(), f32::INFINITY.to_bits(), 1, 0x7fa0_0001];
    let fields = schema(vec![Field::new("vector", list(DataType::Float32), true)]);
    let vector = output(vector_output::Vector::Dense(DenseVector { data: odd.to_vec() }));
    let batch = build(fields, vec![point(1, unnamed(vector))]).unwrap();
    let row = rows(batch.column(0)).remove(0).unwrap();
    assert_eq!(bits(&float_values(&row)), odd.to_vec());
}

#[test]
fn sparse_vectors_whose_names_end_in_a_suffix() {
    let fields = schema(vec![
        Field::new("kw_indices", list(DataType::UInt32), true),
        Field::new("kw_values", list(DataType::Float32), true),
        Field::new("kw_indices_indices", list(DataType::UInt32), true),
        Field::new("kw_indices_values", list(DataType::Float32), true),
        Field::new("kw_values_indices", list(DataType::UInt32), true),
        Field::new("kw_values_values", list(DataType::Float32), true),
    ]);
    let kw = || ("kw", sparse(&[1], &[1.0]));
    let kw_indices = || ("kw_indices", sparse(&[2], &[2.0]));
    let kw_values = || ("kw_values", sparse(&[3], &[3.0]));
    let points = vec![
        point(1, named(vec![kw(), kw_indices(), kw_values()])),
        point(2, named(vec![kw_indices()])),
        point(3, named(vec![kw_values()])),
        point(4, named(vec![kw()])),
    ];
    let batch = build(fields, points).unwrap();
    assert_eq!(indices(batch.column(0)), vec![Some(vec![1]), None, None, Some(vec![1])]);
    assert_eq!(floats(batch.column(1)), vec![Some(vec![1.0]), None, None, Some(vec![1.0])]);
    assert_eq!(indices(batch.column(2)), vec![Some(vec![2]), Some(vec![2]), None, None]);
    assert_eq!(floats(batch.column(3)), vec![Some(vec![2.0]), Some(vec![2.0]), None, None]);
    assert_eq!(indices(batch.column(4)), vec![Some(vec![3]), None, Some(vec![3]), None]);
    assert_eq!(floats(batch.column(5)), vec![Some(vec![3.0]), None, Some(vec![3.0]), None]);
}

#[test]
fn the_schema_is_kept_with_its_metadata() {
    let entry = |key: &str| HashMap::from([(key.to_string(), "x".to_string())]);
    let id = Field::new("id", DataType::Utf8, false).with_metadata(entry("of the field"));
    let fields: SchemaRef = Arc::new(Schema::new_with_metadata(vec![id], entry("of the schema")));
    let batch = build(fields.clone(), vec![point(1, None)]).unwrap();
    assert_eq!(batch.schema(), fields);
    assert_eq!(batch.schema().metadata().get("of the schema"), Some(&"x".to_string()));
    assert_eq!(batch.schema().field(0).metadata().get("of the field"), Some(&"x".to_string()));
}

#[test]
fn room_that_can_be_set_aside() {
    let limit = isize::MAX as usize;
    let id = Field::new("id", DataType::Utf8, false);
    let payload = Field::new("payload", DataType::Utf8, true);
    let vector = Field::new("vector", list(DataType::Float32), true);
    for (field, most) in [(id, limit / 16), (payload, limit / 64), (vector, limit / 4 - 1)] {
        let fields = read_fields(&schema(vec![field.clone()]));
        assert!(can_allocate(&fields[0], 0));
        assert!(can_allocate(&fields[0], most));
        assert!(!can_allocate(&fields[0], most + 1));
        assert!(!can_allocate(&fields[0], usize::MAX));
        assert!(QdrantRecordBatchBuilder::checked_new(schema(vec![field]), most + 1).is_none());
    }
    assert!(QdrantRecordBatchBuilder::checked_new(schema(vec![]), usize::MAX).is_some());
}

#[test]
fn the_capacity_is_a_hint() {
    let build = |capacity: usize| {
        let mut builder = QdrantRecordBatchBuilder::checked_new(collection(), capacity).unwrap();
        builder.append_point(point(1, named(vec![("text", dense(&[1.0]))]))).unwrap();
        builder.append_point(point(2, named(vec![("keywords", sparse(&[1], &[2.0]))]))).unwrap();
        builder.finish().ok().unwrap().record_batch
    };
    assert_eq!(build(0), build(1000));
}

#[test]
fn points_without_an_identifier() {
    let nameless = || vec![
        ScoredPoint { id: None, payload: HashMap::new(), vectors: None },
        ScoredPoint {
            id: Some(PointId { point_id_options: None }),
            payload: HashMap::new(),
            vectors: None,
        },
    ];
    let nullable = schema(vec![Field::new("id", DataType::Utf8, true)]);
    let batch = build(nullable, nameless()).unwrap();
    assert_eq!(texts(batch.column(0)), vec![None, None]);

    let required = schema(vec![Field::new("id", DataType::Utf8, false)]);
    assert!(matches!(build(required, nameless()), Err(Error::Arrow(_))));
}

#[test]
fn fields_of_another_type_are_refused() {
    for field in [
        Field::new("id", DataType::UInt64, true),
        Field::new("vector", DataType::Float32, true),
        Field::new("vector", list(DataType::Float64), true),
        Field::new("vector", DataType::List(Arc::new(Field::new("x", DataType::Float32, true))), true),
        Field::new("a_indices", list(DataType::Float32), true),
    ] {
        assert!(matches!(build(schema(vec![field]), vec![]), Err(Error::Arrow(_))));
    }
}

#[test]
fn a_schema_without_fields_is_refused() {
    assert!(matches!(build(schema(vec![]), vec![]), Err(Error::Arrow(_))));
}

#[test]
fn no_points_make_an_empty_batch() {
    let batch = build(collection(), vec![]).unwrap();
    assert_eq!(batch.num_rows(), 0);
    assert_eq!(batch.num_columns(), 6);
}

#[test]
fn payloads_as_json() {
    assert_eq!(payload_text(&HashMap::new()), None);
    let one = payload(vec![("n", Value { kind: Some(Kind::IntegerValue(-3)) })]);
    assert_eq!(payload_text(&one), Some("{\"n\":-3}".to_string()));
    let null = payload(vec![("a \"b\"", Value { kind: Some(Kind::NullValue(0)) })]);
    assert_eq!(payload_text(&null), Some("{\"a \\\"b\\\"\":null}".to_string()));
    let nothing = payload(vec![("k", Value { kind: None })]);
    assert_eq!(payload_text(&nothing), Some("{\"k\":null}".to_string()));
    let inner = Struct { fields: payload(vec![("x", Value { kind: Some(Kind::DoubleValue(0.5)) })]) };
    let values = vec![
        text_value("s"),
        Value { kind: Some(Kind::BoolValue(true)) },
        Value { kind: Some(Kind::StructValue(inner)) },
    ];
    let nested = payload(vec![("l", Value { kind: Some(Kind::ListValue(ListValue { values })) })]);
    assert_eq!(payload_text(&nested), Some("{\"l\":[\"s\",true,{\"x\":0.5}]}".to_string()));
}

#[test]
fn every_entry_of_a_payload_is_written() {
    let entries = payload(vec![("a", text_value("x")), ("b", text_value("y"))]);
    let json = payload_text(&entries).unwrap();
    assert!(
        json == "{\"a\":\"x\",\"b\":\"y\"}" || json == "{\"b\":\"y\",\"a\":\"x\"}",
        "{}",
        json
    );
}

#[test]
fn rows_are_appended_as_they_are() {
    let fields = schema(vec![
        Field::new("id", DataType::Utf8, true),
        Field::new("payload", DataType::Utf8, true),
        Field::new("vector", list(DataType::Float32), true),
    ]);
    let mut builder = QdrantRecordBatchBuilder::new(fields, 2);
    let row = Row {
        id: Some("x".to_string()),
        json: Some("{}".to_string()),
        vectors: build_vector_lookup(unnamed(dense(&[2.5]))),
    };
    assert!(builder.fits(&row));
    builder.append_row(&row);
    builder.append_row(&Row { id: None, json: None, vectors: build_vector_lookup(None) });
    let batch = builder.finish().ok().unwrap().record_batch;
    assert_eq!(texts(batch.column(0)), vec![Some("x".to_string()), None]);
    assert_eq!(texts(batch.column(1)), vec![Some("{}".to_string()), None]);
    assert_eq!(floats(batch.column(2)), vec![Some(vec![2.5]), None]);
}

#[test]
fn a_point_that_outgrows_a_column_is_left_out() {
    let len: usize = 1 << 31;
    let mut room: Vec<u32> = Vec::new();
    if room.try_reserve_exact(len).is_err() {
        // The machine has no room for such a vector.
        return;
    }
    drop(room);
    let fields = schema(vec![
        Field::new("id", DataType::Utf8, false),
        Field::new("vector", list(DataType::Float32), true),
    ]);
    let mut builder = QdrantRecordBatchBuilder::new(fields, 2);
    builder.append_point(point(1, unnamed(dense(&[1.0])))).unwrap();
    let vector = output(vector_output::Vector::Dense(DenseVector { data: vec![0; len] }));
    assert!(matches!(builder.append_point(point(2, unnamed(vector))), Err(Error::ColumnOverflow)));
    builder.append_point(point(3, unnamed(dense(&[3.0])))).unwrap();
    let batch = builder.finish().ok().unwrap().record_batch;
    assert_eq!(texts(batch.column(0)), vec![Some("1".to_string()), Some("3".to_string())]);
    assert_eq!(floats(batch.column(1)), vec![Some(vec![1.0]), Some(vec![3.0])]);
}

#[test]
fn fields_are_read_in_order() {
    let fields = read_fields(&collection());
    let names: Vec<&str> = fields.iter().map(|field| field.name.as_str()).collect();
    assert_eq!(
        names,
        vec!["id", "payload", "text", "colbert", "keywords_indices", "keywords_values"]
    );
    let nullable: Vec<bool> = fields.iter().map(|field| field.nullable).collect();
    assert_eq!(nullable, vec![false, true, true, true, true, true]);
    let multi: Vec<bool> = fields.iter().map(is_multi_vector_field).collect();
    assert_eq!(multi, vec![false, false, false, true, false, false]);
}
