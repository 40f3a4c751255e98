//! Names, numerals and identifiers as text.

use qdrant_datafusion::arrow::extractor::id_text;
use qdrant_datafusion::qdrant::point_id::PointIdOptions;
use qdrant_datafusion::qdrant::PointId;
use qdrant_datafusion::text::{decimal_text, ends_with, remove_suffix};

#[test]
fn decimal_numerals() {
    assert_eq!(decimal_text(0), "0");
    assert_eq!(decimal_text(9), "9");
    assert_eq!(decimal_text(10), "10");
    assert_eq!(decimal_text(1024), "1024");
    assert_eq!(decimal_text(1234567890), "1234567890");
    assert_eq!(decimal_text(u64::MAX), "18446744073709551615");
}

#[test]
fn different_numbers_read_differently() {
    for n in 0u64..300 {
        assert_eq!(decimal_text(n), n.to_string());
        assert_ne!(decimal_text(n), decimal_text(n + 1));
    }
}

#[test]
fn suffixes() {
    assert!(ends_with("keywords_indices", "_indices"));
    assert!(ends_with("_indices", "_indices"));
    assert!(ends_with("name", ""));
    assert!(!ends_with("indices", "_indices"));
    assert!(!ends_with("keywords_values", "_indices"));
    assert!(ends_with("größe_values", "_values"));
}

#[test]
fn suffixes_are_taken_off_once() {
    assert_eq!(remove_suffix("keywords_indices", "_indices"), "keywords");
    assert_eq!(remove_suffix("keywords", "_indices"), "keywords");
    assert_eq!(remove_suffix("a_indices_indices", "_indices"), "a_indices");
    assert_eq!(remove_suffix("a_indices_values", "_values"), "a_indices");
    assert_eq!(remove_suffix("_values", "_values"), "");
    assert_eq!(remove_suffix("größe_values", "_values"), "größe");
    assert_eq!(remove_suffix("name", ""), "name");
}

#[test]
fn identifiers() {
    let num = Some(PointId { point_id_options: Some(PointIdOptions::Num(42)) });
    assert_eq!(id_text(&num), Some("42".to_string()));
    let uuid = "550e8400-e29b-41d4-a716-446655440000";
    let id = Some(PointId { point_id_options: Some(PointIdOptions::Uuid(uuid.to_string())) });
    assert_eq!(id_text(&id), Some(uuid.to_string()));
    assert_eq!(id_text(&Some(PointId { point_id_options: None })), None);
    assert_eq!(id_text(&None), None);
}
