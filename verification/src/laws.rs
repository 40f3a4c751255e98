//! What holds of vectors, columns and batches as a whole.

use vstd::arithmetic::div_mod::{
    lemma_div_multiples_vanish, lemma_fundamental_div_mod, lemma_mod_multiples_basic,
};
use vstd::prelude::*;

use crate::arrow::batch::{assembles, without_null};
use crate::arrow::columns::{list_type, Cell, ColumnView};
use crate::arrow::deserialize::{
    content, empty_columns, lookup, named_lookup, reads, split, splits_evenly, with_row,
};
use crate::arrow::extractor::{
    field_source, id_text_of, source_cell, source_type, text_cell, FieldExtractor, RowView,
    Source,
};
use crate::arrow::schema::{is_multi_vector, DataTypeView, FieldView};
use crate::payload::is_json_of;
use crate::qdrant::{
    id_view, names_distinct, vectors_view, NamedVectorsOutput, ScoredPoint, VectorOutputView,
    VectorView, VectorsView,
};
use crate::text::{decimal, digit, without_suffix};

pub mod builder;
pub mod limits;
pub mod points;
pub mod texts;
pub mod vectors;

verus! {

/// The first vectors of a split hold the first part of the data.
proof fn lemma_concat_split<T>(data: Seq<T>, count: u32, i: int)
    requires
        splits_evenly(data.len(), count),
        0 <= i <= count,
    ensures
        0 <= i * (data.len() / (count as nat)) <= data.len(),
        split(data, count).take(i).flatten_alt() == data.take(i * (data.len() / (count as nat))),
    decreases i,
{
    let size = data.len() / (count as nat);
    lemma_fundamental_div_mod(data.len() as int, count as int);
    assert(data.len() == count * size);
    assert(0 <= i * size <= count * size) by (nonlinear_arith)
        requires
            0 <= i <= count,
            size >= 0,
    ;
    if i > 0 {
        lemma_concat_split(data, count, i - 1);
        let before = split(data, count).take(i);
        assert(before.drop_last() =~= split(data, count).take(i - 1));
        assert(i * size == (i - 1) * size + size) by (nonlinear_arith);
        assert(before.last() == data.subrange((i - 1) * size, i * size));
        assert(data.take((i - 1) * size) + data.subrange((i - 1) * size, i * size) =~= data.take(
            i * size,
        ));
    } else {
        assert(0 * size == 0);
        assert(split(data, count).take(0) =~= Seq::empty());
        assert(data.take(0) =~= Seq::empty());
    }
}

/// Splitting flat data loses nothing: there are `count` vectors, all equally long, and one behind
/// the other they are the data again.
pub proof fn law_split_is_lossless<T>(data: Seq<T>, count: u32)
    requires
        splits_evenly(data.len(), count),
    ensures
        split(data, count).len() == count,
        forall|i: int|
            0 <= i < count ==> (#[trigger] split(data, count)[i]).len() == data.len() / (
            count as nat),
        split(data, count).flatten() == data,
{
    let size = data.len() / (count as nat);
    lemma_fundamental_div_mod(data.len() as int, count as int);
    assert(data.len() == count * size);
    assert forall|i: int| 0 <= i < count implies (#[trigger] split(data, count)[i]).len()
        == size by {
        assert((i + 1) * size == i * size + size) by (nonlinear_arith);
        assert(0 <= i * size && (i + 1) * size <= count * size) by (nonlinear_arith)
            requires
                0 <= i < count,
                size >= 0,
        ;
    }
    lemma_concat_split(data, count, count as int);
    assert(split(data, count).take(count as int) =~= split(data, count));
    assert(data.take(data.len() as int) =~= data);
    split(data, count).lemma_flatten_and_flatten_alt_are_equivalent();
}

/// Vectors of equal length, one behind the other, at their places.
proof fn lemma_flat_parts<T>(vectors: Seq<Seq<T>>, size: nat)
    requires
        forall|i: int| 0 <= i < vectors.len() ==> (#[trigger] vectors[i]).len() == size,
    ensures
        vectors.flatten_alt().len() == vectors.len() * size,
        forall|i: int|
            #![trigger vectors[i]]
            0 <= i < vectors.len() ==> vectors.flatten_alt().subrange(i * size, (i + 1) * size)
                == vectors[i],
    decreases vectors.len(),
{
    if vectors.len() > 0 {
        let before = vectors.drop_last();
        lemma_flat_parts(before, size);
        let last = vectors.len() - 1;
        assert(vectors.len() * size == last * size + size) by (nonlinear_arith)
            requires
                last == vectors.len() - 1,
        ;
        assert forall|i: int|
            #![trigger vectors[i]]
            0 <= i < vectors.len() implies vectors.flatten_alt().subrange(
            i * size,
            (i + 1) * size,
        ) == vectors[i] by {
            assert((i + 1) * size == i * size + size) by (nonlinear_arith);
            assert(0 <= i * size && (i + 1) * size <= vectors.len() * size) by (nonlinear_arith)
                requires
                    0 <= i < vectors.len(),
                    size >= 0,
            ;
            if i < last {
                assert((i + 1) * size <= last * size) by (nonlinear_arith)
                    requires
                        i < last,
                        size >= 0,
                ;
                assert(before[i] == vectors[i]);
                assert(vectors.flatten_alt().subrange(i * size, (i + 1) * size)
                    =~= before.flatten_alt().subrange(i * size, (i + 1) * size));
            } else {
                assert(vectors.flatten_alt().subrange(i * size, (i + 1) * size) =~= vectors[i]);
            }
        }
    } else {
        assert(0 * size == 0);
    }
}

/// Splitting undoes laying vectors of equal length one behind the other.
pub proof fn law_split_undoes_flatten<T>(vectors: Seq<Seq<T>>, size: nat)
    requires
        0 < vectors.len() <= u32::MAX,
        forall|i: int| 0 <= i < vectors.len() ==> (#[trigger] vectors[i]).len() == size,
    ensures
        splits_evenly(vectors.flatten().len(), vectors.len() as u32),
        split(vectors.flatten(), vectors.len() as u32) == vectors,
{
    let count = vectors.len() as int;
    lemma_flat_parts(vectors, size);
    vectors.lemma_flatten_and_flatten_alt_are_equivalent();
    assert(vectors.len() * size == size * count) by (nonlinear_arith)
        requires
            count == vectors.len(),
    ;
    lemma_div_multiples_vanish(size as int, count);
    lemma_mod_multiples_basic(size as int, count);
    assert(count * size == size * count) by (nonlinear_arith);
    assert(split(vectors.flatten(), vectors.len() as u32) =~= vectors);
}

/// A vector in the flat format.
pub open spec fn flat_output<T>(vector: VectorView<T>) -> VectorOutputView<T> {
    match vector {
        VectorView::Dense(data) => VectorOutputView {
            data,
            indices: None,
            vectors_count: None,
            vector: None,
        },
        VectorView::Sparse { indices, values } => VectorOutputView {
            data: values,
            indices: Some(indices),
            vectors_count: None,
            vector: None,
        },
        VectorView::MultiDense(vectors) => VectorOutputView {
            data: vectors.flatten(),
            indices: None,
            vectors_count: Some(vectors.len() as u32),
            vector: None,
        },
    }
}

/// Whether the flat format can describe a vector: a dense vector is not empty, and a multi-vector
/// has vectors, all equally long and not empty, as many as its count can tell.
pub open spec fn flattens<T>(vector: VectorView<T>) -> bool {
    match vector {
        VectorView::Dense(data) => data.len() > 0,
        VectorView::Sparse { .. } => true,
        VectorView::MultiDense(vectors) => {
            &&& 0 < vectors.len() <= u32::MAX
            &&& vectors[0].len() > 0
            &&& forall|i: int|
                0 <= i < vectors.len() ==> (#[trigger] vectors[i]).len() == vectors[0].len()
        },
    }
}

/// Both formats of a vector read the same.
pub proof fn law_formats_agree<T>(vector: VectorView<T>, current: VectorOutputView<T>)
    requires
        flattens(vector),
        current.vector == Some(vector),
    ensures
        content(flat_output(vector)) == content(current),
        content(current) == Some(vector),
{
    if let VectorView::MultiDense(vectors) = vector {
        law_split_undoes_flatten(vectors, vectors[0].len());
    }
}

/// The flat fields are ignored where the current format is there.
pub proof fn law_current_format_first<T>(a: VectorOutputView<T>, b: VectorOutputView<T>)
    requires
        a.vector is Some,
        a.vector == b.vector,
    ensures
        content(a) == a.vector,
        content(a) == content(b),
{
}

/// A name in the lookup is that of a vector with content.
proof fn lemma_lookup_from<T>(named: Seq<(Seq<char>, VectorOutputView<T>)>, name: Seq<char>)
    requires
        named_lookup(named).contains_key(name),
    ensures
        exists|i: int|
            0 <= i < named.len() && (#[trigger] named[i]).0 == name && content(named[i].1) == Some(
                named_lookup(named)[name],
            ),
    decreases named.len(),
{
    let last = named.len() - 1;
    let before = named.drop_last();
    if named.last().0 == name && content(named.last().1) is Some {
        assert(named[last].0 == name);
    } else {
        lemma_lookup_from(before, name);
        let i = choose|i: int|
            0 <= i < before.len() && (#[trigger] before[i]).0 == name && content(before[i].1)
                == Some(named_lookup(before)[name]);
        assert(named[i] == before[i]);
    }
}

/// Under distinct names the lookup gives, by its name, every vector with content.
proof fn lemma_lookup_by_name<T>(named: Seq<(Seq<char>, VectorOutputView<T>)>, i: int)
    requires
        names_distinct(named),
        0 <= i < named.len(),
    ensures
        lookup(VectorsView::Named(named)).get(named[i].0) == content(named[i].1),
    decreases named.len(),
{
    let last = named.len() - 1;
    let before = named.drop_last();
    assert forall|a: int, b: int| 0 <= a < b < before.len() implies (#[trigger] before[a]).0 != (
    #[trigger] before[b]).0 by {
        assert(named[a].0 != named[b].0);
    }
    if i < last {
        lemma_lookup_by_name(before, i);
        assert(before[i] == named[i]);
        assert(named[i].0 != named[last].0);
    } else if named_lookup(before).contains_key(named[i].0) {
        lemma_lookup_from(before, named[i].0);
        let k = choose|k: int|
            0 <= k < before.len() && (#[trigger] before[k]).0 == named[i].0 && content(before[k].1)
                == Some(named_lookup(before)[named[i].0]);
        assert(named[k].0 != named[last].0);
    }
}

/// The lookup gives every named vector with content by its name.
pub proof fn law_lookup_by_name<T>(named: NamedVectorsOutput<T>, i: int)
    requires
        named.wf(),
        0 <= i < named@.len(),
    ensures
        lookup(VectorsView::Named(named@)).get(named@[i].0) == content(named@[i].1),
{
    lemma_lookup_by_name(named@, i);
}

/// A name that no vector has is not in the lookup.
pub proof fn law_lookup_has_no_more<T>(named: NamedVectorsOutput<T>, name: Seq<char>)
    requires
        named.wf(),
        forall|i: int| 0 <= i < named@.len() ==> (#[trigger] named@[i]).0 != name,
    ensures
        !lookup(VectorsView::Named(named@)).contains_key(name),
{
    if named_lookup(named@).contains_key(name) {
        lemma_lookup_from(named@, name);
    }
}

/// The order in which the named vectors of a point are visited does not matter.
pub proof fn law_lookup_ignores_order<T>(a: NamedVectorsOutput<T>, b: NamedVectorsOutput<T>)
    requires
        a.wf(),
        b.wf(),
        a@.to_set() == b@.to_set(),
    ensures
        lookup(VectorsView::Named(a@)) == lookup(VectorsView::Named(b@)),
{
    let la = lookup(VectorsView::Named(a@));
    let lb = lookup(VectorsView::Named(b@));
    assert forall|name: Seq<char>| #[trigger] la.dom().contains(name) implies lb.dom().contains(
        name,
    ) && la[name] == lb[name] by {
        lemma_lookup_entry(a@, b@, name);
    }
    assert forall|name: Seq<char>| #[trigger] lb.dom().contains(name) implies la.dom().contains(
        name,
    ) by {
        lemma_lookup_entry(b@, a@, name);
    }
    assert(la =~= lb);
}

/// An entry of one lookup is an entry of the other, where both have the same vectors.
proof fn lemma_lookup_entry<T>(
    a: Seq<(Seq<char>, VectorOutputView<T>)>,
    b: Seq<(Seq<char>, VectorOutputView<T>)>,
    name: Seq<char>,
)
    requires
        names_distinct(b),
        a.to_set() == b.to_set(),
        named_lookup(a).contains_key(name),
    ensures
        named_lookup(b).get(name) == Some(named_lookup(a)[name]),
{
    lemma_lookup_from(a, name);
    let i = choose|i: int|
        0 <= i < a.len() && (#[trigger] a[i]).0 == name && content(a[i].1) == Some(
            named_lookup(a)[name],
        );
    assert(a.to_set().contains(a[i]));
    assert(b.to_set().contains(a[i]));
    assert(b.contains(a[i]));
    let k = choose|k: int| 0 <= k < b.len() && b[k] == a[i];
    lemma_lookup_by_name(b, k);
}

/// A vector without a name goes by `vector`.
pub proof fn law_unnamed_vector<T>(output: VectorOutputView<T>, name: Seq<char>)
    ensures
        lookup(VectorsView::Unnamed(output)).get(name) == if name == "vector"@ {
            content(output)
        } else {
            None
        },
{
}

/// The capacity is a hint only: two extractors of one field, whatever room was set aside for them,
/// take the same from every point, under the same name, and start without rows.
pub proof fn law_capacity_is_a_hint(field: FieldView, a: FieldExtractor, b: FieldExtractor)
    requires
        a.is_fresh(field),
        b.is_fresh(field),
    ensures
        a.source() == b.source(),
        a.cells() == b.cells(),
        a.cells().len() == 0,
{
}

/// The columns of these fields over these rows: the cell of a field and a row is what the column
/// of the field takes from the row.
pub open spec fn filled(fields: Seq<FieldView>, rows: Seq<RowView>) -> Seq<ColumnView> {
    Seq::new(
        fields.len(),
        |i: int|
            ColumnView {
                data_type: source_type(field_source(fields[i])),
                cells: rows.map_values(|row: RowView| source_cell(field_source(fields[i]), row)),
            },
    )
}

/// Appending rows one by one, to columns that start without any, fills the columns with these
/// rows in this order.
pub proof fn law_columns_hold_rows(fields: Seq<FieldView>, rows: Seq<RowView>, row: RowView)
    ensures
        empty_columns(fields) == filled(fields, Seq::empty()),
        with_row(fields, filled(fields, rows), row) == filled(fields, rows.push(row)),
{
    let start = filled(fields, Seq::empty());
    assert forall|i: int| 0 <= i < fields.len() implies empty_columns(fields)[i] == start[i] by {
        assert(start[i].cells =~= Seq::empty());
    }
    assert(empty_columns(fields) =~= start);
    let before = filled(fields, rows);
    let after = filled(fields, rows.push(row));
    assert forall|i: int| 0 <= i < fields.len() implies with_row(fields, before, row)[i]
        == after[i] by {
        assert(with_row(fields, before, row)[i].cells =~= after[i].cells);
    }
    assert(with_row(fields, before, row) =~= after);
}

/// Appending a row adds one cell to every column, at its end, and keeps the cells before it.
pub proof fn law_rows_stay(
    fields: Seq<FieldView>,
    columns: Seq<ColumnView>,
    row: RowView,
    i: int,
)
    requires
        0 <= i < columns.len(),
    ensures
        with_row(fields, columns, row).len() == columns.len(),
        with_row(fields, columns, row)[i].data_type == columns[i].data_type,
        with_row(fields, columns, row)[i].cells.drop_last() == columns[i].cells,
        with_row(fields, columns, row)[i].cells.last() == source_cell(
            field_source(fields[i]),
            row,
        ),
{
    assert(with_row(fields, columns, row)[i].cells.drop_last() =~= columns[i].cells);
}

/// Filled columns make a record batch exactly where there is a field, every field has the type of
/// its column, and no field that admits no nulls gets one.
pub proof fn law_filled_columns_assemble(fields: Seq<FieldView>, rows: Seq<RowView>)
    ensures
        assembles(fields, filled(fields, rows)) <==> {
            &&& fields.len() > 0
            &&& forall|i: int|
                0 <= i < fields.len() ==> (#[trigger] fields[i]).data_type == source_type(
                    field_source(fields[i]),
                )
            &&& forall|i: int, j: int|
                0 <= i < fields.len() && 0 <= j < rows.len() ==> (#[trigger] fields[i]).nullable
                    || !(source_cell(field_source(fields[i]), #[trigger] rows[j]) is Null)
        },
{
    let columns = filled(fields, rows);
    assert forall|i: int| 0 <= i < fields.len() implies (without_null(#[trigger] columns[i])
        <==> forall|j: int|
        0 <= j < rows.len() ==> !(source_cell(
            field_source(fields[i]),
            #[trigger] rows[j],
        ) is Null)) by {
        let cells = columns[i].cells;
        if without_null(columns[i]) {
            assert forall|j: int| 0 <= j < rows.len() implies !(source_cell(
                field_source(fields[i]),
                #[trigger] rows[j],
            ) is Null) by {
                assert(cells[j] == source_cell(field_source(fields[i]), rows[j]));
            }
        }
    }
    assert(forall|i: int|
        #![trigger fields[i]]
        #![trigger columns[i]]
        0 <= i < fields.len() ==> columns[i].data_type == source_type(field_source(fields[i]))
            && columns[i].cells.len() == rows.len());
}

/// Whether a name is that of a dense vector or a multi-vector: not one that stands for something
/// else.
pub open spec fn is_plain_name(name: Seq<char>) -> bool {
    &&& name != "id"@
    &&& name != "payload"@
    &&& !"_indices"@.is_suffix_of(name)
    &&& !"_values"@.is_suffix_of(name)
}

/// Whether a field is one of those that the schema of a collection is made of: the identifier, the
/// payload, the two halves of a sparse vector, a dense vector or a multi-vector.
pub open spec fn is_collection_field(field: FieldView) -> bool {
    if field.name == "id"@ {
        field.data_type == DataTypeView::Utf8
    } else if field.name == "payload"@ {
        field.nullable && field.data_type == DataTypeView::Utf8
    } else if "_indices"@.is_suffix_of(field.name) {
        field.nullable && field.data_type == list_type(DataTypeView::UInt32)
    } else if "_values"@.is_suffix_of(field.name) {
        field.nullable && field.data_type == list_type(DataTypeView::Float32)
    } else {
        field.nullable && (field.data_type == list_type(DataTypeView::Float32) || field.data_type
            == list_type(list_type(DataTypeView::Float32)))
    }
}

/// Under the schema of a collection, points with an identifier always make a record batch,
/// whichever of the vectors and payloads they lack.
pub proof fn law_collection_schema_assembles(fields: Seq<FieldView>, rows: Seq<RowView>)
    requires
        fields.len() > 0,
        forall|i: int| 0 <= i < fields.len() ==> is_collection_field(#[trigger] fields[i]),
        forall|j: int| 0 <= j < rows.len() ==> (#[trigger] rows[j]).id is Some,
    ensures
        assembles(fields, filled(fields, rows)),
{
    law_filled_columns_assemble(fields, rows);
    assert forall|i: int| 0 <= i < fields.len() implies (#[trigger] fields[i]).data_type
        == source_type(field_source(fields[i])) by {
        assert(is_collection_field(fields[i]));
    }
    assert forall|i: int, j: int| 0 <= i < fields.len() && 0 <= j < rows.len() implies (
    #[trigger] fields[i]).nullable || !(source_cell(
        field_source(fields[i]),
        #[trigger] rows[j],
    ) is Null) by {
        assert(is_collection_field(fields[i]));
    }
}

/// A field with a plain name takes the vector of its own name: the multi-vector where its type is
/// a list of lists, and the dense vector otherwise.
pub proof fn law_plain_field_takes_own_vector(field: FieldView)
    requires
        is_plain_name(field.name),
    ensures
        is_multi_vector(field) ==> field_source(field) == Source::Multi(field.name),
        !is_multi_vector(field) ==> field_source(field) == Source::Dense(field.name),
{
}

/// Both fields of a sparse vector take the vector of that name.
pub proof fn law_sparse_fields(name: Seq<char>, indices: FieldView, values: FieldView)
    requires
        indices.name == name + "_indices"@,
        values.name == name + "_values"@,
    ensures
        field_source(indices) == Source::Indices(name),
        field_source(values) == Source::Values(name),
{
    reveal_strlit("id");
    reveal_strlit("payload");
    reveal_strlit("_indices");
    reveal_strlit("_values");
    lemma_suffix_comes_off(name, "_indices"@);
    lemma_suffix_comes_off(name, "_values"@);
    assert(values.name[values.name.len() - 7] == '_');
    if "_indices"@.is_suffix_of(values.name) {
        let tail = values.name.subrange(values.name.len() - 8, values.name.len() as int);
        assert("_indices"@ == tail);
        assert(tail[1] == values.name[values.name.len() - 7]);
        assert(false);
    }
    assert(values.name[name.len() as int] == '_');
}

/// Taking a suffix off undoes putting it on.
proof fn lemma_suffix_comes_off(name: Seq<char>, suffix: Seq<char>)
    ensures
        suffix.is_suffix_of(name + suffix),
        without_suffix(name + suffix, suffix) == name,
{
    let whole = name + suffix;
    assert(whole.subrange(whole.len() - suffix.len(), whole.len() as int) =~= suffix);
    assert(whole.take(whole.len() - suffix.len()) =~= name);
}

/// The two halves of a sparse vector come from one vector and are null together.
pub proof fn law_sparse_halves_agree(
    name: Seq<char>,
    indices: FieldView,
    values: FieldView,
    row: RowView,
)
    requires
        indices.name == name + "_indices"@,
        values.name == name + "_values"@,
    ensures
        row.vectors.get(name) matches Some(VectorView::Sparse { indices: positions, values: data })
            ==> {
            &&& source_cell(field_source(indices), row) == Cell::Indices(positions)
            &&& source_cell(field_source(values), row) == Cell::Floats(data)
        },
        source_cell(field_source(indices), row) is Null <==> source_cell(
            field_source(values),
            row,
        ) is Null,
{
    law_sparse_fields(name, indices, values);
}

/// What a point puts under each field of a schema: its identifier as text, its payload as JSON or a
/// null for an empty one, and under a plain name the vector of that name where it has the form that
/// the field holds.
pub proof fn law_cell_of_point(fields: Seq<FieldView>, i: int, point: ScoredPoint, row: RowView)
    requires
        0 <= i < fields.len(),
        reads(fields, point, row),
    ensures
        fields[i].name == "id"@ ==> source_cell(field_source(fields[i]), row) == text_cell(
            id_text_of(id_view(point.id)),
        ),
        fields[i].name == "payload"@ ==> match source_cell(field_source(fields[i]), row) {
            Cell::Text(json) => !point.payload@.is_empty() && is_json_of(point.payload@, json),
            Cell::Null => point.payload@.is_empty(),
            _ => false,
        },
        is_plain_name(fields[i].name) ==> source_cell(field_source(fields[i]), row) == match lookup(
            vectors_view(point.vectors),
        ).get(fields[i].name) {
            Some(VectorView::Dense(data)) if !is_multi_vector(fields[i]) => Cell::Floats(data),
            Some(VectorView::MultiDense(vectors)) if is_multi_vector(
                fields[i],
            ) => Cell::FloatLists(vectors),
            _ => Cell::Null,
        },
{
    reveal_strlit("id");
    reveal_strlit("payload");
    if fields[i].name == "payload"@ {
        assert("id"@.len() != "payload"@.len());
        assert(field_source(fields[i]) is Payload);
    }
}

/// A point without vectors has a null in every vector column.
pub proof fn law_no_vectors_all_null(field: FieldView, row: RowView)
    requires
        field.name != "id"@,
        field.name != "payload"@,
        row.vectors == lookup(VectorsView::<u32>::Missing),
    ensures
        source_cell(field_source(field), row) is Null,
{
}

/// Different numbers have different decimal texts.
pub proof fn law_decimal_texts_differ(a: nat, b: nat)
    requires
        a != b,
    ensures
        decimal(a) != decimal(b),
    decreases a + b,
{
    if decimal(a) == decimal(b) {
        lemma_decimal_len(a);
        lemma_decimal_len(b);
        assert(decimal(a).last() == digit(a % 10));
        assert(decimal(b).last() == digit(b % 10));
        if a >= 10 && b >= 10 {
            assert(decimal(a).drop_last() =~= decimal(a / 10));
            assert(decimal(b).drop_last() =~= decimal(b / 10));
            law_decimal_texts_differ(a / 10, b / 10);
        }
    }
}

/// Numbers of one digit have texts of one character, and only these.
proof fn lemma_decimal_len(n: nat)
    ensures
        decimal(n).len() >= 1,
        n < 10 <==> decimal(n).len() == 1,
    decreases n,
{
    if n >= 10 {
        lemma_decimal_len(n / 10);
    }
}

} // verus!
