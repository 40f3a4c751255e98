//! What a point puts into the columns of a schema, by the fields of the point.

use vstd::prelude::*;

use crate::arrow::batch::column_views;
use crate::arrow::columns::{column_view, list_type, Cell, Column, ColumnView};
use crate::arrow::deserialize::{content, empty_columns, reads, with_row};
use crate::arrow::extractor::{field_source, Row, RowView};
use crate::arrow::schema::{
    field_view, field_views, is_multi_vector, type_view, DataType, DataTypeView, Field, FieldView,
};
use crate::laws::texts::{is_numeral, law_numerals_read_back, numeral_value};
use crate::laws::{is_plain_name, law_lookup_by_name, law_lookup_has_no_more, law_sparse_fields};
use crate::payload::is_json_of;
use crate::qdrant::point_id::PointIdOptions;
use crate::qdrant::vectors_output::VectorsOptions;
use crate::qdrant::{
    NamedVectorsOutput, PointId, ScoredPoint, VectorOutput, VectorView, VectorsOutput,
};

verus! {

/// The last cell of a column once a row has been appended.
pub open spec fn new_cell(
    fields: Seq<FieldView>,
    columns: Seq<ColumnView>,
    row: RowView,
    i: int,
) -> Cell {
    with_row(fields, columns, row)[i].cells.last()
}

/// The identifier column: a number as the decimal numeral that reads back as the number, a UUID
/// letter for letter, and a null for an identifier that is neither or that is missing.
pub proof fn law_id_cell(
    fields: Seq<FieldView>,
    columns: Seq<ColumnView>,
    i: int,
    point: ScoredPoint,
    row: RowView,
)
    requires
        0 <= i < columns.len(),
        fields[i].name == "id"@,
        reads(fields, point, row),
    ensures
        match point.id {
            Some(PointId { point_id_options: Some(PointIdOptions::Num(n)) }) => {
                &&& new_cell(fields, columns, row, i) is Text
                &&& is_numeral(new_cell(fields, columns, row, i)->Text_0)
                &&& numeral_value(new_cell(fields, columns, row, i)->Text_0) == n
            },
            Some(PointId { point_id_options: Some(PointIdOptions::Uuid(uuid)) }) => new_cell(
                fields,
                columns,
                row,
                i,
            ) == Cell::Text(uuid@),
            _ => new_cell(fields, columns, row, i) is Null,
        },
{
    if let Some(PointId { point_id_options: Some(PointIdOptions::Num(n)) }) = point.id {
        law_numerals_read_back(n as nat);
    }
}

/// Points with different numbers have different identifier cells, under any schema.
pub proof fn law_id_cells_differ(
    fields: Seq<FieldView>,
    columns: Seq<ColumnView>,
    i: int,
    a: ScoredPoint,
    row_a: RowView,
    b: ScoredPoint,
    row_b: RowView,
    m: u64,
    n: u64,
)
    requires
        0 <= i < columns.len(),
        fields[i].name == "id"@,
        reads(fields, a, row_a),
        reads(fields, b, row_b),
        a.id == Some(PointId { point_id_options: Some(PointIdOptions::Num(m)) }),
        b.id == Some(PointId { point_id_options: Some(PointIdOptions::Num(n)) }),
        m != n,
    ensures
        new_cell(fields, columns, row_a, i) != new_cell(fields, columns, row_b, i),
{
    law_id_cell(fields, columns, i, a, row_a);
    law_id_cell(fields, columns, i, b, row_b);
}

/// The payload column: the JSON of a payload that has an entry, and a null for one that has none,
/// wherever the column stands in the schema.
pub proof fn law_payload_cell(
    fields: Seq<FieldView>,
    columns: Seq<ColumnView>,
    i: int,
    point: ScoredPoint,
    row: RowView,
)
    requires
        0 <= i < columns.len(),
        columns.len() == fields.len(),
        fields[i].name == "payload"@,
        reads(fields, point, row),
    ensures
        match new_cell(fields, columns, row, i) {
            Cell::Text(json) => is_json_of(point.payload@, json) && exists|key: String|
                point.payload@.contains_key(key),
            Cell::Null => forall|key: String| !point.payload@.contains_key(key),
            _ => false,
        },
{
    reveal_strlit("id");
    reveal_strlit("payload");
    assert("id"@.len() != "payload"@.len());
    assert(field_source(fields[i]) is Payload);
    if !point.payload@.is_empty() {
        let key = point.payload@.dom().choose();
        assert(point.payload@.contains_key(key));
    }
}

/// A vector under a name, in the columns that can take it: dense under the name itself where the
/// field is no list of lists, a multi-vector there where it is one, and the halves of a sparse
/// vector under the name with a suffix. In a column of another form it is a null.
pub open spec fn holds_vector(
    field: FieldView,
    name: Seq<char>,
    vector: Option<VectorView<u32>>,
    cell: Cell,
) -> bool {
    let of_lists = field.data_type matches DataTypeView::List(item) && item.data_type is List;
    if field.name == name + "_indices"@ {
        match vector {
            Some(VectorView::Sparse { indices, values }) => cell == Cell::Indices(indices),
            _ => cell is Null,
        }
    } else if field.name == name + "_values"@ {
        match vector {
            Some(VectorView::Sparse { indices, values }) => cell == Cell::Floats(values),
            _ => cell is Null,
        }
    } else {
        match vector {
            Some(VectorView::Dense(data)) => if of_lists {
                cell is Null
            } else {
                cell == Cell::Floats(data)
            },
            Some(VectorView::MultiDense(vectors)) => if of_lists {
                cell == Cell::FloatLists(vectors)
            } else {
                cell is Null
            },
            _ => cell is Null,
        }
    }
}

/// Whether a field is one of those of the vector of this name.
pub open spec fn is_field_of(field: FieldView, name: Seq<char>) -> bool {
    ||| field.name == name + "_indices"@
    ||| field.name == name + "_values"@
    ||| field.name == name && is_plain_name(name)
}

/// A vector column takes the vector of exactly its own name, and nothing of any other.
pub proof fn law_column_takes_its_own_vector(
    fields: Seq<FieldView>,
    columns: Seq<ColumnView>,
    i: int,
    name: Seq<char>,
    row: RowView,
)
    requires
        0 <= i < columns.len(),
        is_field_of(fields[i], name),
    ensures
        holds_vector(
            fields[i],
            name,
            row.vectors.get(name),
            new_cell(fields, columns, row, i),
        ),
{
    let field = fields[i];
    let indices = FieldView { name: name + "_indices"@, ..field };
    let values = FieldView { name: name + "_values"@, ..field };
    law_sparse_fields(name, indices, values);
    reveal_strlit("_indices");
    reveal_strlit("_values");
    assert((name + "_indices"@).len() != (name + "_values"@).len());
    assert((name + "_indices"@).len() != name.len());
    assert((name + "_values"@).len() != name.len());
}

/// What other vectors a point has does not matter for a column.
pub proof fn law_other_vectors_do_not_matter(
    fields: Seq<FieldView>,
    columns: Seq<ColumnView>,
    i: int,
    name: Seq<char>,
    a: RowView,
    b: RowView,
)
    requires
        0 <= i < columns.len(),
        is_field_of(fields[i], name),
        a.vectors.get(name) == b.vectors.get(name),
    ensures
        new_cell(fields, columns, a, i) == new_cell(fields, columns, b, i),
{
    law_column_takes_its_own_vector(fields, columns, i, name, a);
    law_column_takes_its_own_vector(fields, columns, i, name, b);
}

/// A sparse column is null wherever there is no sparse vector under exactly its name.
pub proof fn law_sparse_cells_need_their_vector(
    fields: Seq<FieldView>,
    columns: Seq<ColumnView>,
    i: int,
    name: Seq<char>,
    row: RowView,
)
    requires
        0 <= i < columns.len(),
        fields[i].name == name + "_indices"@ || fields[i].name == name + "_values"@,
        !(row.vectors.contains_key(name) && row.vectors[name] is Sparse),
    ensures
        new_cell(fields, columns, row, i) is Null,
{
    law_column_takes_its_own_vector(fields, columns, i, name, row);
}

/// The columns of a named vector of a point hold that vector.
pub proof fn law_named_vector_cell(
    fields: Seq<FieldView>,
    columns: Seq<ColumnView>,
    i: int,
    point: ScoredPoint,
    row: RowView,
    named: NamedVectorsOutput<u32>,
    k: int,
)
    requires
        0 <= i < columns.len(),
        reads(fields, point, row),
        point.vectors == Some(
            VectorsOutput { vectors_options: Some(VectorsOptions::Vectors(named)) },
        ),
        named.wf(),
        0 <= k < named.vectors@.len(),
        is_field_of(fields[i], named.vectors@[k].0@),
    ensures
        holds_vector(
            fields[i],
            named.vectors@[k].0@,
            content(named.vectors@[k].1@),
            new_cell(fields, columns, row, i),
        ),
{
    let name = named.vectors@[k].0@;
    law_lookup_by_name(named, k);
    assert(named@[k].0 == name);
    law_column_takes_its_own_vector(fields, columns, i, name, row);
}

/// The columns of a name that no vector of a point has are null.
pub proof fn law_missing_vector_cell(
    fields: Seq<FieldView>,
    columns: Seq<ColumnView>,
    i: int,
    point: ScoredPoint,
    row: RowView,
    named: NamedVectorsOutput<u32>,
    name: Seq<char>,
)
    requires
        0 <= i < columns.len(),
        reads(fields, point, row),
        point.vectors == Some(
            VectorsOutput { vectors_options: Some(VectorsOptions::Vectors(named)) },
        ),
        named.wf(),
        forall|k: int| 0 <= k < named.vectors@.len() ==> (#[trigger] named.vectors@[k]).0@ != name,
        is_field_of(fields[i], name),
    ensures
        new_cell(fields, columns, row, i) is Null,
{
    assert forall|k: int| 0 <= k < named@.len() implies (#[trigger] named@[k]).0 != name by {
        assert(named.vectors@[k].0@ != name);
    }
    law_lookup_has_no_more(named, name);
    law_column_takes_its_own_vector(fields, columns, i, name, row);
}

/// The vector of a point that has one without a name is in the columns of `vector`; the columns of
/// every other name are null.
pub proof fn law_unnamed_vector_cell(
    fields: Seq<FieldView>,
    columns: Seq<ColumnView>,
    i: int,
    point: ScoredPoint,
    row: RowView,
    output: VectorOutput<u32>,
    name: Seq<char>,
)
    requires
        0 <= i < columns.len(),
        reads(fields, point, row),
        point.vectors == Some(
            VectorsOutput { vectors_options: Some(VectorsOptions::Vector(output)) },
        ),
        is_field_of(fields[i], name),
    ensures
        name == "vector"@ ==> holds_vector(
            fields[i],
            name,
            content(output@),
            new_cell(fields, columns, row, i),
        ),
        name != "vector"@ ==> new_cell(fields, columns, row, i) is Null,
{
    law_column_takes_its_own_vector(fields, columns, i, name, row);
}

/// A point without vectors has a null in every vector column.
pub proof fn law_cells_without_vectors(
    fields: Seq<FieldView>,
    columns: Seq<ColumnView>,
    i: int,
    point: ScoredPoint,
    row: RowView,
)
    requires
        0 <= i < columns.len(),
        reads(fields, point, row),
        point.vectors is None || point.vectors->0.vectors_options is None,
        fields[i].name != "id"@,
        fields[i].name != "payload"@,
    ensures
        new_cell(fields, columns, row, i) is Null,
{
}

/// A new builder has a column without cells for each field, of the type that the name of the field
/// calls for.
pub proof fn law_new_columns(fields: Seq<FieldView>, i: int)
    requires
        0 <= i < fields.len(),
    ensures
        empty_columns(fields).len() == fields.len(),
        empty_columns(fields)[i].cells.len() == 0,
        fields[i].name == "id"@ || fields[i].name == "payload"@ ==> empty_columns(
            fields,
        )[i].data_type == DataTypeView::Utf8,
        forall|name: Seq<char>|
            #![trigger name + "_indices"@]
            fields[i].name == name + "_indices"@ ==> empty_columns(fields)[i].data_type
                == list_type(DataTypeView::UInt32),
        forall|name: Seq<char>|
            #![trigger name + "_values"@]
            fields[i].name == name + "_values"@ ==> empty_columns(fields)[i].data_type == list_type(
                DataTypeView::Float32,
            ),
        is_plain_name(fields[i].name) ==> empty_columns(fields)[i].data_type == if (
        fields[i].data_type matches DataTypeView::List(item) && item.data_type is List) {
            list_type(list_type(DataTypeView::Float32))
        } else {
            list_type(DataTypeView::Float32)
        },
{
    let field = fields[i];
    assert forall|name: Seq<char>|
        #![trigger name + "_indices"@]
        field.name == name + "_indices"@ implies empty_columns(fields)[i].data_type == list_type(
        DataTypeView::UInt32,
    ) by {
        law_sparse_fields(name, field, FieldView { name: name + "_values"@, ..field });
    }
    assert forall|name: Seq<char>|
        #![trigger name + "_values"@]
        field.name == name + "_values"@ implies empty_columns(fields)[i].data_type == list_type(
        DataTypeView::Float32,
    ) by {
        law_sparse_fields(name, FieldView { name: name + "_indices"@, ..field }, field);
    }
}

/// A row and its value hold the same.
pub proof fn law_row_values(row: Row)
    ensures
        match row.id {
            Some(text) => row@.id == Some(text@),
            None => row@.id is None,
        },
        match row.json {
            Some(text) => row@.json == Some(text@),
            None => row@.json is None,
        },
        row@.vectors.dom() == row.vectors@.dom(),
        forall|name: Seq<char>|
            #![trigger row.vectors@.contains_key(name)]
            row.vectors@.contains_key(name) ==> row@.vectors[name] == row.vectors@[name]@,
{
    assert(row@.vectors.dom() =~= row.vectors@.dom());
}

/// Fields and columns go by their values one by one, in order.
pub proof fn law_values_in_order(fields: Seq<Field>, columns: Seq<Column>)
    ensures
        field_views(fields).len() == fields.len(),
        forall|i: int| 0 <= i < fields.len() ==> field_views(fields)[i] == #[trigger] fields[i]@,
        column_views(columns).len() == columns.len(),
        forall|i: int|
            0 <= i < columns.len() ==> column_views(columns)[i] == column_view(
                #[trigger] columns[i],
            ),
{
}

/// A field and its value hold the same; a field is one of a multi-vector exactly where its type is
/// a list of lists.
pub proof fn law_field_values(field: Field)
    ensures
        field@.name == field.name@,
        field@.nullable == field.nullable,
        field@.metadata_len == field.metadata_len,
        field.data_type is Utf8 <==> field@.data_type is Utf8,
        field.data_type is UInt32 <==> field@.data_type is UInt32,
        field.data_type is Float32 <==> field@.data_type is Float32,
        field.data_type is List <==> field@.data_type is List,
        field.data_type matches DataType::List(item) ==> *field@.data_type->List_0 == (*item)@,
        is_multi_vector(field@) <==> (field.data_type matches DataType::List(
            item,
        ) && item.data_type is List),
{
    reveal_with_fuel(field_view, 3);
    reveal_with_fuel(type_view, 3);
}

} // verus!
