//! Where points and capacities are refused, and that they are refused nowhere else.

use vstd::prelude::*;
use vstd::utf8::encode_utf8;

use crate::arrow::columns::{Cell, ColumnView};
use crate::arrow::deserialize::{
    all_capacity_fits, all_readable, readable, row_fits, with_row,
};
use crate::arrow::extractor::{
    capacity_fits, column_lists, column_size, field_source, has_room, source_cell, total_len,
    RowView,
};
use crate::arrow::schema::FieldView;
use crate::qdrant::vectors_output::VectorsOptions;
use crate::qdrant::{vectors_view, NamedVectorsOutput, VectorOutput, VectorsOutput};

verus! {

/// The bytes that a cell puts into its column.
pub open spec fn cell_bytes(cell: Cell) -> Seq<u8> {
    match cell {
        Cell::Text(text) => encode_utf8(text),
        _ => Seq::empty(),
    }
}

/// The numbers that a cell puts into its column.
pub open spec fn cell_values(cell: Cell) -> Seq<u32> {
    match cell {
        Cell::Indices(indices) => indices,
        Cell::Floats(floats) => floats,
        Cell::FloatLists(lists) => lists.flatten(),
        _ => Seq::empty(),
    }
}

/// The inner lists that a cell puts into its column.
pub open spec fn cell_inner(cell: Cell) -> Seq<Seq<u32>> {
    match cell {
        Cell::FloatLists(lists) => lists,
        _ => Seq::empty(),
    }
}

/// The bytes of a column, one cell behind the other.
pub open spec fn all_bytes(cells: Seq<Cell>) -> Seq<u8> {
    cells.map_values(|cell: Cell| cell_bytes(cell)).flatten()
}

/// The numbers of a column, one cell behind the other.
pub open spec fn all_values(cells: Seq<Cell>) -> Seq<u32> {
    cells.map_values(|cell: Cell| cell_values(cell)).flatten()
}

/// The inner lists of a column, one cell behind the other.
pub open spec fn all_inner(cells: Seq<Cell>) -> Seq<Seq<u32>> {
    cells.map_values(|cell: Cell| cell_inner(cell)).flatten()
}

/// Whether 32-bit offsets can count what a column holds.
pub open spec fn within_offsets(cells: Seq<Cell>) -> bool {
    &&& all_bytes(cells).len() + all_values(cells).len() <= 0x7fff_ffff
    &&& all_inner(cells).len() <= 0x7fff_ffff
}

/// One more part comes behind the others.
proof fn lemma_flatten_last<A>(parts: Seq<Seq<A>>)
    requires
        parts.len() > 0,
    ensures
        parts.flatten() == parts.drop_last().flatten() + parts.last(),
{
    parts.lemma_flatten_and_flatten_alt_are_equivalent();
    parts.drop_last().lemma_flatten_and_flatten_alt_are_equivalent();
}

/// The number of values in all lists is the length of the lists one behind the other.
proof fn lemma_total_len(lists: Seq<Seq<u32>>)
    ensures
        total_len(lists) == lists.flatten().len(),
    decreases lists.len(),
{
    if lists.len() > 0 {
        lemma_total_len(lists.drop_last());
        lemma_flatten_last(lists);
    }
}

/// The measures of a column count what it holds.
proof fn lemma_column_measures(cells: Seq<Cell>)
    ensures
        column_size(cells) == all_bytes(cells).len() + all_values(cells).len(),
        column_lists(cells) == all_inner(cells).len(),
    decreases cells.len(),
{
    let bytes = cells.map_values(|cell: Cell| cell_bytes(cell));
    let values = cells.map_values(|cell: Cell| cell_values(cell));
    let inner = cells.map_values(|cell: Cell| cell_inner(cell));
    if cells.len() > 0 {
        let before = cells.drop_last();
        lemma_column_measures(before);
        lemma_flatten_last(bytes);
        lemma_flatten_last(values);
        lemma_flatten_last(inner);
        assert(bytes.drop_last() =~= before.map_values(|cell: Cell| cell_bytes(cell)));
        assert(values.drop_last() =~= before.map_values(|cell: Cell| cell_values(cell)));
        assert(inner.drop_last() =~= before.map_values(|cell: Cell| cell_inner(cell)));
        if let Cell::FloatLists(lists) = cells.last() {
            lemma_total_len(lists);
        }
    }
}

/// A column has room for a cell exactly where 32-bit offsets can count what it then holds.
pub proof fn law_room_is_what_offsets_count(cells: Seq<Cell>, cell: Cell)
    ensures
        has_room(cells, cell) <==> within_offsets(cells.push(cell)),
{
    lemma_column_measures(cells.push(cell));
    assert(cells.push(cell).drop_last() =~= cells);
}

/// A row is refused exactly where a column with the row in it would hold more than 32-bit offsets
/// can count. Neither the kind of a column nor the number of rows matters.
pub proof fn law_rows_are_refused_only_by_offsets(
    fields: Seq<FieldView>,
    columns: Seq<ColumnView>,
    row: RowView,
)
    ensures
        row_fits(fields, columns, row) <==> forall|i: int|
            0 <= i < columns.len() ==> within_offsets(
                (#[trigger] with_row(fields, columns, row)[i]).cells,
            ),
{
    let after = with_row(fields, columns, row);
    assert forall|i: int| 0 <= i < columns.len() implies has_room(
        #[trigger] columns[i].cells,
        source_cell(field_source(fields[i]), row),
    ) == within_offsets(after[i].cells) by {
        law_room_is_what_offsets_count(
            columns[i].cells,
            source_cell(field_source(fields[i]), row),
        );
    }
    if row_fits(fields, columns, row) {
        assert forall|i: int| 0 <= i < columns.len() implies within_offsets(
            (#[trigger] after[i]).cells,
        ) by {
            let cells = columns[i].cells;
            assert(has_room(cells, source_cell(field_source(fields[i]), row)));
        }
    }
    if forall|i: int| 0 <= i < columns.len() ==> within_offsets((#[trigger] after[i]).cells) {
        assert forall|i: int| 0 <= i < columns.len() implies has_room(
            (#[trigger] columns[i]).cells,
            source_cell(field_source(fields[i]), row),
        ) by {
            assert(within_offsets(after[i].cells));
            let cells = columns[i].cells;
            assert(has_room(cells, source_cell(field_source(fields[i]), row)) == within_offsets(
                after[i].cells,
            ));
        }
    }
}

/// Room can be set aside in every schema for as many rows as any column could hold.
pub proof fn law_every_schema_takes_the_capacity(fields: Seq<FieldView>, capacity: usize)
    requires
        (capacity + 1) * 4 <= isize::MAX,
        capacity * 64 <= isize::MAX,
    ensures
        all_capacity_fits(fields, capacity),
{
}

/// A schema takes a capacity exactly where each of its fields takes it alone.
pub proof fn law_capacity_field_by_field(fields: Seq<FieldView>, capacity: usize)
    ensures
        all_capacity_fits(fields, capacity) <==> forall|i: int|
            0 <= i < fields.len() ==> all_capacity_fits(#[trigger] seq![fields[i]], capacity),
{
    assert forall|i: int| 0 <= i < fields.len() implies all_capacity_fits(
        #[trigger] seq![fields[i]],
        capacity,
    ) == capacity_fits(fields[i], capacity) by {
        assert(seq![fields[i]][0] == fields[i]);
    }
    if forall|i: int|
        0 <= i < fields.len() ==> all_capacity_fits(#[trigger] seq![fields[i]], capacity) {
        assert forall|i: int| 0 <= i < fields.len() implies capacity_fits(
            #[trigger] fields[i],
            capacity,
        ) by {
            assert(all_capacity_fits(seq![fields[i]], capacity));
        }
    }
}

/// A capacity is refused only where a buffer would not fit in the address space: the offsets of any
/// column, the bytes of identifiers, or the bytes of payloads.
pub proof fn law_capacity_by_name(field: FieldView, capacity: usize)
    ensures
        field.name == "id"@ ==> (capacity_fits(field, capacity) <==> (capacity + 1) * 4
            <= isize::MAX && capacity * 16 <= isize::MAX),
        field.name == "payload"@ ==> (capacity_fits(field, capacity) <==> (capacity + 1) * 4
            <= isize::MAX && capacity * 64 <= isize::MAX),
        field.name != "id"@ && field.name != "payload"@ ==> (capacity_fits(field, capacity) <==> (
        capacity + 1) * 4 <= isize::MAX),
{
    reveal_strlit("id");
    reveal_strlit("payload");
    assert("id"@.len() != "payload"@.len());
}

/// A vector can be read in the current format, without a count, and with data; it cannot be read
/// where a count comes with neither.
pub proof fn law_what_can_be_read<T>(output: VectorOutput<T>)
    ensures
        output.vector is Some ==> readable(output@),
        output.vectors_count is None ==> readable(output@),
        output.data@.len() > 0 ==> readable(output@),
        output.vector is None && output.vectors_count is Some && output.data@.len() == 0
            ==> !readable(output@),
{
}

/// A point can be read exactly where each of its vectors can be read alone, however many it has.
pub proof fn law_points_are_read_vector_by_vector<T>(named: NamedVectorsOutput<T>)
    ensures
        all_readable(
            vectors_view(
                Some(VectorsOutput { vectors_options: Some(VectorsOptions::Vectors(named)) }),
            ),
        ) <==> forall|i: int|
            0 <= i < named.vectors@.len() ==> {
                let output = (#[trigger] named.vectors@[i]).1;
                output.vector is Some || output.vectors_count is None || output.data@.len() > 0
            },
{
    let point = vectors_view(
        Some(VectorsOutput { vectors_options: Some(VectorsOptions::Vectors(named)) }),
    );
    assert forall|i: int| 0 <= i < named.vectors@.len() implies (#[trigger] named@[i]).1
        == named.vectors@[i].1@ by {}
    if all_readable(point) {
        assert forall|i: int| 0 <= i < named.vectors@.len() implies {
            let output = (#[trigger] named.vectors@[i]).1;
            output.vector is Some || output.vectors_count is None || output.data@.len() > 0
        } by {
            assert(readable(named@[i].1));
        }
    }
}

/// A point with one vector can be read exactly where that vector can, and a point without vectors
/// always.
pub proof fn law_points_with_one_vector_or_none<T>(output: VectorOutput<T>)
    ensures
        all_readable(
            vectors_view(
                Some(VectorsOutput { vectors_options: Some(VectorsOptions::Vector(output)) }),
            ),
        ) <==> output.vector is Some || output.vectors_count is None || output.data@.len() > 0,
        all_readable(vectors_view(Some(VectorsOutput::<T> { vectors_options: None }))),
        all_readable(vectors_view(None::<VectorsOutput<T>>)),
{
}

} // verus!
