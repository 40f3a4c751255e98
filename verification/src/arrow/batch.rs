//! Record batches out of finished columns.

use datafusion::arrow::datatypes::{Schema, SchemaRef};
use datafusion::arrow::error::ArrowError;
use datafusion::arrow::record_batch::RecordBatch;
use vstd::prelude::*;

use super::columns::{column_view, Column, ColumnView};
use super::schema::{schema_fields, FieldView};

verus! {

/// A record batch: a schema with one column for each field.
#[verifier::external_body]
pub struct Batch {
    pub record_batch: RecordBatch,
}

/// The columns of a record batch, in order.
pub uninterp spec fn batch_columns(batch: Batch) -> Seq<ColumnView>;

/// The schema of a record batch, with all its metadata.
pub uninterp spec fn batch_schema(batch: Batch) -> Schema;

/// The values of finished columns.
pub open spec fn column_views(columns: Seq<Column>) -> Seq<ColumnView> {
    Seq::new(columns.len(), |i: int| column_view(columns[i]))
}

/// Whether a column has no null.
pub open spec fn without_null(column: ColumnView) -> bool {
    forall|i: int| 0 <= i < column.cells.len() ==> !((#[trigger] column.cells[i]) is Null)
}

/// Whether a column can stand under a field: it has the field's type, and nulls only where the
/// field admits them.
pub open spec fn suits(field: FieldView, column: ColumnView) -> bool {
    &&& field.data_type == column.data_type
    &&& field.nullable || without_null(column)
}

/// Whether columns make a record batch under a schema of these fields: there is at least one
/// column, each suits its field, and all are equally long.
pub open spec fn assembles(fields: Seq<FieldView>, columns: Seq<ColumnView>) -> bool {
    &&& columns.len() > 0
    &&& columns.len() == fields.len()
    &&& forall|i: int| 0 <= i < columns.len() ==> suits(fields[i], #[trigger] columns[i])
    &&& forall|i: int|
        0 <= i < columns.len() ==> (#[trigger] columns[i]).cells.len() == columns[0].cells.len()
}

/// `RecordBatch::try_new`: the batch of these columns under that schema, which it keeps as it is,
/// if they make one, and an error otherwise. What the error says is left open.
#[verifier::external_body]
pub(crate) fn try_new(schema: SchemaRef, columns: Vec<Column>) -> (res: Result<
    Batch,
    ArrowError,
>)
    ensures
        res is Ok <==> assembles(schema_fields(*schema), column_views(columns@)),
        res matches Ok(batch) ==> {
            &&& batch_schema(batch) == *schema
            &&& batch_columns(batch) == column_views(columns@)
        },
{
    let arrays = columns.into_iter().map(|column| column.array).collect();
    RecordBatch::try_new(schema, arrays).map(|record_batch| Batch { record_batch })
}

} // verus!
