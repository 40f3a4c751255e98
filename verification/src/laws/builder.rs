//! What the calls on a builder do to its columns, from one call to the next.

use vstd::prelude::*;

use crate::arrow::batch::{batch_columns, batch_schema, without_null, Batch};
use crate::arrow::columns::Cell;
use crate::arrow::deserialize::{
    law_columns_match_fields, reads, row_fits, with_row, QdrantRecordBatchBuilder,
};
use crate::arrow::extractor::RowView;
use crate::error::Error;
use crate::laws::is_collection_field;
use crate::laws::limits::{law_rows_are_refused_only_by_offsets, within_offsets};
use crate::laws::points::law_id_cell;
use crate::laws::texts::{is_numeral, numeral_value};
use crate::qdrant::point_id::PointIdOptions;
use crate::qdrant::{PointId, ScoredPoint};

verus! {

/// Whether a row stays within 32-bit offsets in every column.
pub open spec fn countable(before: QdrantRecordBatchBuilder, row: RowView) -> bool {
    forall|i: int|
        0 <= i < before.fields().len() ==> within_offsets(
            (#[trigger] with_row(before.fields(), before.columns(), row)[i]).cells,
        )
}

/// A point is refused only where 32-bit offsets cannot count a column with the point in it. A
/// refused point changes no column, and an appended one adds a cell at the end of every column.
pub proof fn law_append_point(
    before: QdrantRecordBatchBuilder,
    point: ScoredPoint,
    res: Result<(), Error>,
    after: QdrantRecordBatchBuilder,
)
    requires
        before.wf(),
        QdrantRecordBatchBuilder::appends(before, point, res, after),
    ensures
        (forall|row: RowView| #[trigger]
            reads(before.fields(), point, row) ==> countable(before, row)) ==> res is Ok,
        (forall|row: RowView| #[trigger]
            reads(before.fields(), point, row) ==> !countable(before, row)) ==> res is Err,
        res is Err ==> res->Err_0 is ColumnOverflow,
        res is Err ==> after.columns() == before.columns(),
        after.columns().len() == before.fields().len(),
        res is Ok ==> forall|i: int|
            0 <= i < before.fields().len() ==> {
                &&& (#[trigger] after.columns()[i]).cells.len() == before.columns()[i].cells.len()
                    + 1
                &&& after.columns()[i].cells.drop_last() == before.columns()[i].cells
                &&& after.columns()[i].data_type == before.columns()[i].data_type
                &&& within_offsets(after.columns()[i].cells)
            },
{
    law_columns_match_fields(before);
    let row = choose|row: RowView| #[trigger]
        reads(before.fields(), point, row) && if row_fits(
            before.fields(),
            before.columns(),
            row,
        ) {
            &&& res is Ok
            &&& after.columns() == with_row(before.fields(), before.columns(), row)
        } else {
            &&& res == Err::<(), Error>(Error::ColumnOverflow)
            &&& after.columns() == before.columns()
        };
    law_rows_are_refused_only_by_offsets(before.fields(), before.columns(), row);
    assert(row_fits(before.fields(), before.columns(), row) == countable(before, row));
    if res is Ok {
        assert forall|i: int| 0 <= i < before.fields().len() implies (
        #[trigger] after.columns()[i]).cells.drop_last() == before.columns()[i].cells by {
            assert(after.columns()[i].cells.drop_last() =~= before.columns()[i].cells);
        }
    }
}

/// The identifier that an appended point leaves in the batch: reading the digits of a numeric one
/// gives the number back, and a UUID stands there letter for letter.
pub proof fn law_appended_identifier(
    before: QdrantRecordBatchBuilder,
    point: ScoredPoint,
    res: Result<(), Error>,
    after: QdrantRecordBatchBuilder,
    i: int,
)
    requires
        before.wf(),
        QdrantRecordBatchBuilder::appends(before, point, res, after),
        res is Ok,
        0 <= i < before.fields().len(),
        before.fields()[i].name == "id"@,
    ensures
        match point.id {
            Some(PointId { point_id_options: Some(PointIdOptions::Num(n)) }) => {
                &&& after.columns()[i].cells.last() is Text
                &&& is_numeral(after.columns()[i].cells.last()->Text_0)
                &&& numeral_value(after.columns()[i].cells.last()->Text_0) == n
            },
            Some(PointId { point_id_options: Some(PointIdOptions::Uuid(uuid)) }) => {
                after.columns()[i].cells.last() == Cell::Text(uuid@)
            },
            _ => after.columns()[i].cells.last() is Null,
        },
{
    law_columns_match_fields(before);
    let row = choose|row: RowView| #[trigger]
        reads(before.fields(), point, row) && after.columns() == with_row(
            before.fields(),
            before.columns(),
            row,
        );
    law_id_cell(before.fields(), before.columns(), i, point, row);
}

/// Under the schema of a collection, finishing succeeds where every point had an identifier or
/// needed none, and the batch has the schema and the columns of the builder.
pub proof fn law_finish(builder: QdrantRecordBatchBuilder, res: Result<Batch, Error>)
    requires
        builder.wf(),
        builder.finishes(res),
        builder.fields().len() > 0,
        forall|i: int|
            0 <= i < builder.fields().len() ==> {
                &&& is_collection_field(#[trigger] builder.fields()[i])
                &&& builder.fields()[i].nullable || without_null(builder.columns()[i])
            },
    ensures
        res is Ok,
        batch_schema(res->Ok_0) == builder.schema(),
        batch_columns(res->Ok_0) == builder.columns(),
{
    law_columns_match_fields(builder);
    assert forall|i: int| 0 <= i < builder.columns().len() implies builder.fields()[i].data_type
        == (#[trigger] builder.columns()[i]).data_type && (builder.fields()[i].nullable
        || without_null(builder.columns()[i])) by {
        assert(is_collection_field(builder.fields()[i]));
    }
}

} // verus!
