//! What each column takes from a point.

use vstd::hash_map::StringHashMap;
use vstd::prelude::*;
use vstd::utf8::encode_utf8;

use super::columns::{
    column_view, ends_cover, float_cells, float_slots, float_values, index_cells, index_slots,
    index_values, inner_lists, lemma_push_inner, lemma_push_null, lemma_push_valid, list_rows,
    list_type, nested_cells, nested_ends, nested_slots, nested_values, slots_cover, text_cells,
    text_rows, text_size, Cell, Column, ColumnView, FloatListBuilder, FloatListsBuilder,
    IndexListBuilder, TextBuilder, MAX_OFFSET,
};
use super::deserialize::{nested, table_view, Vector};
use super::schema::{is_multi_vector, is_multi_vector_field, DataTypeView, Field, FieldView};
use crate::qdrant::{id_view, point_id, IdView, PointId, VectorView};
use crate::text::{decimal, decimal_text, ends_with, opt_text, remove_suffix, without_suffix};

verus! {

/// What a column takes from a point: its identifier, its payload, or a part of the vector of that
/// name.
#[verifier::ext_equal]
pub enum Source {
    Id,
    Payload,
    Dense(Seq<char>),
    Multi(Seq<char>),
    Indices(Seq<char>),
    Values(Seq<char>),
}

/// What the column of a field takes from a point.
pub open spec fn field_source(field: FieldView) -> Source {
    if field.name == "id"@ {
        Source::Id
    } else if field.name == "payload"@ {
        Source::Payload
    } else if "_indices"@.is_suffix_of(field.name) {
        Source::Indices(without_suffix(field.name, "_indices"@))
    } else if "_values"@.is_suffix_of(field.name) {
        Source::Values(without_suffix(field.name, "_values"@))
    } else if is_multi_vector(field) {
        Source::Multi(field.name)
    } else {
        Source::Dense(field.name)
    }
}

/// The type of a column that takes this from a point.
pub open spec fn source_type(source: Source) -> DataTypeView {
    match source {
        Source::Id | Source::Payload => DataTypeView::Utf8,
        Source::Dense(_) | Source::Values(_) => list_type(DataTypeView::Float32),
        Source::Multi(_) => list_type(list_type(DataTypeView::Float32)),
        Source::Indices(_) => list_type(DataTypeView::UInt32),
    }
}

/// Whether a column of this field can set aside room for `capacity` rows: an offset for each row
/// and one more, and for each row 16 bytes of an identifier or 64 bytes of a payload. No allocation
/// is larger than `isize::MAX` bytes.
pub open spec fn capacity_fits(field: FieldView, capacity: usize) -> bool {
    &&& (capacity + 1) * 4 <= isize::MAX
    &&& match field_source(field) {
        Source::Id => capacity * 16 <= isize::MAX,
        Source::Payload => capacity * 64 <= isize::MAX,
        _ => true,
    }
}

/// Whether a column of `field` can set aside room for `capacity` rows.
pub fn can_allocate(field: &Field, capacity: usize) -> (fits: bool)
    ensures
        fits == capacity_fits(field@, capacity),
{
    let limit: usize = isize::MAX as usize;
    let name = field.name.clone();
    if capacity >= limit / 4 {
        false
    } else if name == "id".to_owned() {
        capacity <= limit / 16
    } else if name == "payload".to_owned() {
        capacity <= limit / 64
    } else {
        true
    }
}

/// A point as the columns read it.
pub struct Row {
    /// The text of the identifier.
    pub id: Option<String>,
    /// The payload as JSON.
    pub json: Option<String>,
    /// The vectors by name.
    pub vectors: StringHashMap<Vector<u32>>,
}

/// A [`Row`], as a value.
#[verifier::ext_equal]
pub struct RowView {
    pub id: Option<Seq<char>>,
    pub json: Option<Seq<char>>,
    pub vectors: Map<Seq<char>, VectorView<u32>>,
}

impl View for Row {
    type V = RowView;

    open spec fn view(&self) -> RowView {
        RowView {
            id: opt_text(self.id),
            json: opt_text(self.json),
            vectors: table_view(self.vectors@),
        }
    }
}

/// The text of an identifier: a number in decimal, a UUID as it is. A point without an identifier,
/// or with one that is neither, has no text.
pub open spec fn id_text_of(id: Option<IdView>) -> Option<Seq<char>> {
    match id {
        Some(IdView::Num(n)) => Some(decimal(n as nat)),
        Some(IdView::Uuid(uuid)) => Some(uuid),
        None => None,
    }
}

/// An optional text as a cell.
pub open spec fn text_cell(text: Option<Seq<char>>) -> Cell {
    match text {
        Some(text) => Cell::Text(text),
        None => Cell::Null,
    }
}

/// What a column takes from a point. A vector that is missing, or of another form than the column
/// holds, gives a null.
pub open spec fn source_cell(source: Source, row: RowView) -> Cell {
    match source {
        Source::Id => text_cell(row.id),
        Source::Payload => text_cell(row.json),
        Source::Dense(name) => match row.vectors.get(name) {
            Some(VectorView::Dense(data)) => Cell::Floats(data),
            _ => Cell::Null,
        },
        Source::Multi(name) => match row.vectors.get(name) {
            Some(VectorView::MultiDense(vectors)) => Cell::FloatLists(vectors),
            _ => Cell::Null,
        },
        Source::Indices(name) => match row.vectors.get(name) {
            Some(VectorView::Sparse { indices, values }) => Cell::Indices(indices),
            _ => Cell::Null,
        },
        Source::Values(name) => match row.vectors.get(name) {
            Some(VectorView::Sparse { indices, values }) => Cell::Floats(values),
            _ => Cell::Null,
        },
    }
}

/// The number of values in all lists.
pub open spec fn total_len(lists: Seq<Seq<u32>>) -> nat
    decreases lists.len(),
{
    if lists.len() == 0 {
        0
    } else {
        total_len(lists.drop_last()) + lists.last().len()
    }
}

/// The data of a cell: the bytes of a text, or the values of its lists.
pub open spec fn cell_size(cell: Cell) -> nat {
    match cell {
        Cell::Null => 0,
        Cell::Text(text) => encode_utf8(text).len(),
        Cell::Indices(indices) => indices.len(),
        Cell::Floats(floats) => floats.len(),
        Cell::FloatLists(lists) => total_len(lists),
    }
}

/// The inner lists of a cell.
pub open spec fn cell_lists(cell: Cell) -> nat {
    match cell {
        Cell::FloatLists(lists) => lists.len(),
        _ => 0,
    }
}

/// The data of all cells of a column.
pub open spec fn column_size(cells: Seq<Cell>) -> nat
    decreases cells.len(),
{
    if cells.len() == 0 {
        0
    } else {
        column_size(cells.drop_last()) + cell_size(cells.last())
    }
}

/// The inner lists of all cells of a column.
pub open spec fn column_lists(cells: Seq<Cell>) -> nat
    decreases cells.len(),
{
    if cells.len() == 0 {
        0
    } else {
        column_lists(cells.drop_last()) + cell_lists(cells.last())
    }
}

/// Whether a column has room for one more cell: Arrow counts data and inner lists by 32-bit
/// offsets.
pub open spec fn has_room(cells: Seq<Cell>, cell: Cell) -> bool {
    &&& column_size(cells) + cell_size(cell) <= MAX_OFFSET
    &&& column_lists(cells) + cell_lists(cell) <= MAX_OFFSET
}

/// One more cell adds its own data.
proof fn lemma_push_cell(cells: Seq<Cell>, cell: Cell)
    ensures
        column_size(cells.push(cell)) == column_size(cells) + cell_size(cell),
        column_lists(cells.push(cell)) == column_lists(cells) + cell_lists(cell),
{
    assert(cells.push(cell).drop_last() =~= cells);
}

/// Builds the column of one schema field.
pub enum FieldExtractor {
    Id(TextBuilder),
    Payload(TextBuilder),
    DenseVector { name: String, builder: FloatListBuilder },
    MultiVector { name: String, builder: FloatListsBuilder },
    SparseIndices { name: String, builder: IndexListBuilder },
    SparseValues { name: String, builder: FloatListBuilder },
}

/// Writes the text of an identifier.
pub fn id_text(id: &Option<PointId>) -> (text: Option<String>)
    ensures
        opt_text(text) == id_text_of(id_view(*id)),
{
    match id {
        Some(id) => match &id.point_id_options {
            Some(point_id::PointIdOptions::Num(n)) => Some(decimal_text(*n)),
            Some(point_id::PointIdOptions::Uuid(uuid)) => Some(uuid.clone()),
            None => None,
        },
        None => None,
    }
}

impl FieldExtractor {
    /// What the column takes from a point.
    pub open spec fn source(self) -> Source {
        match self {
            FieldExtractor::Id(_) => Source::Id,
            FieldExtractor::Payload(_) => Source::Payload,
            FieldExtractor::DenseVector { name, .. } => Source::Dense(name@),
            FieldExtractor::MultiVector { name, .. } => Source::Multi(name@),
            FieldExtractor::SparseIndices { name, .. } => Source::Indices(name@),
            FieldExtractor::SparseValues { name, .. } => Source::Values(name@),
        }
    }

    /// The cells of the column so far.
    pub open spec fn cells(self) -> Seq<Cell> {
        match self {
            FieldExtractor::Id(builder) | FieldExtractor::Payload(builder) => text_cells(
                text_rows(builder),
            ),
            FieldExtractor::DenseVector { builder, .. }
            | FieldExtractor::SparseValues { builder, .. } => float_cells(
                list_rows(float_values(builder), float_slots(builder)),
            ),
            FieldExtractor::MultiVector { builder, .. } => nested_cells(
                list_rows(
                    inner_lists(nested_values(builder), nested_ends(builder)),
                    nested_slots(builder),
                ),
            ),
            FieldExtractor::SparseIndices { builder, .. } => index_cells(
                list_rows(index_values(builder), index_slots(builder)),
            ),
        }
    }

    /// Whether the column is complete up to its last row and within Arrow's offsets.
    pub open spec fn wf(self) -> bool {
        &&& column_size(self.cells()) <= MAX_OFFSET
        &&& column_lists(self.cells()) <= MAX_OFFSET
        &&& match self {
            FieldExtractor::Id(builder) | FieldExtractor::Payload(builder) => text_size(
                text_rows(builder),
            ) == column_size(self.cells()),
            FieldExtractor::DenseVector { builder, .. }
            | FieldExtractor::SparseValues { builder, .. } => {
                &&& slots_cover(float_slots(builder), float_values(builder).len())
                &&& float_values(builder).len() == column_size(self.cells())
            },
            FieldExtractor::MultiVector { builder, .. } => {
                &&& ends_cover(nested_ends(builder), nested_values(builder).len())
                &&& slots_cover(nested_slots(builder), nested_ends(builder).len())
                &&& nested_values(builder).len() == column_size(self.cells())
                &&& nested_ends(builder).len() == column_lists(self.cells())
            },
            FieldExtractor::SparseIndices { builder, .. } => {
                &&& slots_cover(index_slots(builder), index_values(builder).len())
                &&& index_values(builder).len() == column_size(self.cells())
            },
        }
    }

    /// Whether this is the extractor of a field before the first row.
    pub open spec fn is_fresh(self, field: FieldView) -> bool {
        &&& self.wf()
        &&& self.source() == field_source(field)
        &&& self.cells() == Seq::<Cell>::empty()
    }

    /// Makes the extractor for a schema field, with room for `capacity` rows.
    pub fn from_schema_field(field: &Field, capacity: usize) -> (extractor: Self)
        requires
            capacity_fits(field@, capacity),
        ensures
            extractor.is_fresh(field@),
    {
        let name = field.name.clone();
        let extractor = if name == "id".to_owned() {
            FieldExtractor::Id(TextBuilder::with_capacity(capacity, capacity * 16))
        } else if name == "payload".to_owned() {
            FieldExtractor::Payload(TextBuilder::with_capacity(capacity, capacity * 64))
        } else if ends_with(name.as_str(), "_indices") {
            FieldExtractor::SparseIndices {
                name: remove_suffix(name.as_str(), "_indices"),
                builder: IndexListBuilder::with_capacity(capacity),
            }
        } else if ends_with(name.as_str(), "_values") {
            FieldExtractor::SparseValues {
                name: remove_suffix(name.as_str(), "_values"),
                builder: FloatListBuilder::with_capacity(capacity),
            }
        } else if is_multi_vector_field(field) {
            FieldExtractor::MultiVector {
                name,
                builder: FloatListsBuilder::with_capacity(capacity),
            }
        } else {
            FieldExtractor::DenseVector {
                name,
                builder: FloatListBuilder::with_capacity(capacity),
            }
        };
        proof {
            assert(extractor.cells() =~= Seq::<Cell>::empty());
        }
        extractor
    }

    /// Whether the column has room for its cell of `row`.
    pub fn fits(&self, row: &Row) -> (fits: bool)
        requires
            self.wf(),
        ensures
            fits == has_room(self.cells(), source_cell(self.source(), row@)),
    {
        match self {
            FieldExtractor::Id(builder) => text_fits(builder, &row.id),
            FieldExtractor::Payload(builder) => text_fits(builder, &row.json),
            FieldExtractor::DenseVector { name, builder } => {
                match row.vectors.get(name.as_str()) {
                    Some(Vector::Dense(data)) => data.len() <= MAX_OFFSET - builder.values_len(),
                    _ => true,
                }
            },
            FieldExtractor::MultiVector { name, builder } => {
                match row.vectors.get(name.as_str()) {
                    Some(Vector::MultiDense(vectors)) => vectors.len() <= MAX_OFFSET
                        - builder.lists_len() && total_fits(
                        vectors,
                        MAX_OFFSET - builder.values_len(),
                    ),
                    _ => true,
                }
            },
            FieldExtractor::SparseIndices { name, builder } => {
                match row.vectors.get(name.as_str()) {
                    Some(Vector::Sparse(sparse)) => sparse.indices.len() <= MAX_OFFSET
                        - builder.values_len(),
                    _ => true,
                }
            },
            FieldExtractor::SparseValues { name, builder } => {
                match row.vectors.get(name.as_str()) {
                    Some(Vector::Sparse(sparse)) => sparse.values.len() <= MAX_OFFSET
                        - builder.values_len(),
                    _ => true,
                }
            },
        }
    }

    /// Appends to the column its cell of `row`.
    pub fn append(&mut self, row: &Row)
        requires
            old(self).wf(),
            has_room(old(self).cells(), source_cell(old(self).source(), row@)),
        ensures
            final(self).wf(),
            final(self).source() == old(self).source(),
            final(self).cells() == old(self).cells().push(
                source_cell(old(self).source(), row@),
            ),
    {
        let ghost cell = source_cell(self.source(), row@);
        proof {
            lemma_push_cell(self.cells(), cell);
        }
        match self {
            FieldExtractor::Id(builder) => append_text(builder, &row.id),
            FieldExtractor::Payload(builder) => append_text(builder, &row.json),
            FieldExtractor::DenseVector { name, builder } => {
                if let Some(Vector::Dense(data)) = row.vectors.get(name.as_str()) {
                    append_floats(builder, data);
                } else {
                    append_float_null(builder);
                }
            },
            FieldExtractor::MultiVector { name, builder } => {
                if let Some(Vector::MultiDense(vectors)) = row.vectors.get(name.as_str()) {
                    append_float_lists(builder, vectors);
                } else {
                    append_float_lists_null(builder);
                }
            },
            FieldExtractor::SparseIndices { name, builder } => {
                if let Some(Vector::Sparse(sparse)) = row.vectors.get(name.as_str()) {
                    append_indices(builder, &sparse.indices);
                } else {
                    append_indices_null(builder);
                }
            },
            FieldExtractor::SparseValues { name, builder } => {
                if let Some(Vector::Sparse(sparse)) = row.vectors.get(name.as_str()) {
                    append_floats(builder, &sparse.values);
                } else {
                    append_float_null(builder);
                }
            },
        }
    }

    /// Finishes the column.
    pub fn finish(self) -> (column: Column)
        ensures
            column_view(column) == (ColumnView {
                data_type: source_type(self.source()),
                cells: self.cells(),
            }),
    {
        match self {
            FieldExtractor::Id(builder) => builder.finish(),
            FieldExtractor::Payload(builder) => builder.finish(),
            FieldExtractor::DenseVector { builder, .. } => builder.finish(),
            FieldExtractor::MultiVector { builder, .. } => builder.finish(),
            FieldExtractor::SparseIndices { builder, .. } => builder.finish(),
            FieldExtractor::SparseValues { builder, .. } => builder.finish(),
        }
    }
}

/// Whether a text column has room for `text`.
fn text_fits(builder: &TextBuilder, text: &Option<String>) -> (fits: bool)
    requires
        text_size(text_rows(*builder)) <= MAX_OFFSET,
    ensures
        fits == (text_size(text_rows(*builder)) + cell_size(text_cell(opt_text(*text)))
            <= MAX_OFFSET),
{
    match text {
        Some(text) => text.as_str().as_bytes().len() <= MAX_OFFSET - builder.size(),
        None => true,
    }
}

/// Whether the lists hold at most `limit` values in all.
fn total_fits(lists: &Vec<Vec<u32>>, limit: usize) -> (fits: bool)
    ensures
        fits == (total_len(nested(lists@)) <= limit),
{
    let mut left: usize = limit;
    let mut i: usize = 0;
    proof {
        assert(nested(lists@).take(0) =~= Seq::<Seq<u32>>::empty());
    }
    while i < lists.len()
        invariant
            i <= lists@.len(),
            left <= limit,
            total_len(nested(lists@).take(i as int)) == limit - left,
        decreases lists@.len() - i,
    {
        proof {
            lemma_total_len_step(nested(lists@), i as int);
        }
        if lists[i].len() > left {
            proof {
                lemma_total_len_prefix(nested(lists@), i + 1);
            }
            return false;
        }
        left = left - lists[i].len();
        i += 1;
    }
    proof {
        assert(nested(lists@).take(i as int) =~= nested(lists@));
    }
    true
}

/// One more list adds its values.
proof fn lemma_total_len_step(lists: Seq<Seq<u32>>, i: int)
    requires
        0 <= i < lists.len(),
    ensures
        total_len(lists.take(i + 1)) == total_len(lists.take(i)) + lists[i].len(),
{
    assert(lists.take(i + 1).drop_last() =~= lists.take(i));
}

/// The first lists hold at most the values of all.
proof fn lemma_total_len_prefix(lists: Seq<Seq<u32>>, i: int)
    requires
        0 <= i <= lists.len(),
    ensures
        total_len(lists.take(i)) <= total_len(lists),
    decreases lists.len() - i,
{
    if i < lists.len() {
        lemma_total_len_step(lists, i);
        lemma_total_len_prefix(lists, i + 1);
    } else {
        assert(lists.take(i) =~= lists);
    }
}

/// Appends a row of text.
fn append_text(builder: &mut TextBuilder, text: &Option<String>)
    requires
        text_size(text_rows(*old(builder))) + cell_size(text_cell(opt_text(*text))) <= MAX_OFFSET,
    ensures
        text_rows(*final(builder)) == text_rows(*old(builder)).push(opt_text(*text)),
        text_cells(text_rows(*final(builder))) == text_cells(text_rows(*old(builder))).push(
            text_cell(opt_text(*text)),
        ),
        text_size(text_rows(*final(builder))) == text_size(text_rows(*old(builder))) + cell_size(
            text_cell(opt_text(*text)),
        ),
{
    match text {
        Some(text) => builder.append_value(text.as_str()),
        None => builder.append_null(),
    }
    proof {
        let before = text_rows(*old(builder));
        let after = text_rows(*builder);
        assert(after.drop_last() =~= before);
        assert(text_cells(after) =~= text_cells(before).push(text_cell(opt_text(*text))));
    }
}

/// Appends a row of floats.
fn append_floats(builder: &mut FloatListBuilder, data: &Vec<u32>)
    requires
        slots_cover(float_slots(*old(builder)), float_values(*old(builder)).len()),
        float_values(*old(builder)).len() + data@.len() <= MAX_OFFSET,
    ensures
        slots_cover(float_slots(*final(builder)), float_values(*final(builder)).len()),
        float_values(*final(builder)).len() == float_values(*old(builder)).len() + data@.len(),
        float_cells(list_rows(float_values(*final(builder)), float_slots(*final(builder))))
            == float_cells(
            list_rows(float_values(*old(builder)), float_slots(*old(builder))),
        ).push(Cell::Floats(data@)),
{
    builder.append_slice(data);
    builder.append(true);
    proof {
        let values = float_values(*old(builder));
        let slots = float_slots(*old(builder));
        lemma_push_valid(values, slots, data@);
        assert(float_cells(list_rows(values, slots).push(Some(data@))) =~= float_cells(
            list_rows(values, slots),
        ).push(Cell::Floats(data@)));
    }
}

/// Appends a row without floats.
fn append_float_null(builder: &mut FloatListBuilder)
    requires
        slots_cover(float_slots(*old(builder)), float_values(*old(builder)).len()),
        float_values(*old(builder)).len() <= MAX_OFFSET,
    ensures
        slots_cover(float_slots(*final(builder)), float_values(*final(builder)).len()),
        float_values(*final(builder)).len() == float_values(*old(builder)).len(),
        float_cells(list_rows(float_values(*final(builder)), float_slots(*final(builder))))
            == float_cells(
            list_rows(float_values(*old(builder)), float_slots(*old(builder))),
        ).push(Cell::Null),
{
    builder.append(false);
    proof {
        let values = float_values(*old(builder));
        let slots = float_slots(*old(builder));
        lemma_push_null(values, slots);
        assert(float_cells(list_rows(values, slots).push(None)) =~= float_cells(
            list_rows(values, slots),
        ).push(Cell::Null));
    }
}

/// Appends a row of positions.
fn append_indices(builder: &mut IndexListBuilder, data: &Vec<u32>)
    requires
        slots_cover(index_slots(*old(builder)), index_values(*old(builder)).len()),
        index_values(*old(builder)).len() + data@.len() <= MAX_OFFSET,
    ensures
        slots_cover(index_slots(*final(builder)), index_values(*final(builder)).len()),
        index_values(*final(builder)).len() == index_values(*old(builder)).len() + data@.len(),
        index_cells(list_rows(index_values(*final(builder)), index_slots(*final(builder))))
            == index_cells(
            list_rows(index_values(*old(builder)), index_slots(*old(builder))),
        ).push(Cell::Indices(data@)),
{
    builder.append_slice(data);
    builder.append(true);
    proof {
        let values = index_values(*old(builder));
        let slots = index_slots(*old(builder));
        lemma_push_valid(values, slots, data@);
        assert(index_cells(list_rows(values, slots).push(Some(data@))) =~= index_cells(
            list_rows(values, slots),
        ).push(Cell::Indices(data@)));
    }
}

/// Appends a row without positions.
fn append_indices_null(builder: &mut IndexListBuilder)
    requires
        slots_cover(index_slots(*old(builder)), index_values(*old(builder)).len()),
        index_values(*old(builder)).len() <= MAX_OFFSET,
    ensures
        slots_cover(index_slots(*final(builder)), index_values(*final(builder)).len()),
        index_values(*final(builder)).len() == index_values(*old(builder)).len(),
        index_cells(list_rows(index_values(*final(builder)), index_slots(*final(builder))))
            == index_cells(
            list_rows(index_values(*old(builder)), index_slots(*old(builder))),
        ).push(Cell::Null),
{
    builder.append(false);
    proof {
        let values = index_values(*old(builder));
        let slots = index_slots(*old(builder));
        lemma_push_null(values, slots);
        assert(index_cells(list_rows(values, slots).push(None)) =~= index_cells(
            list_rows(values, slots),
        ).push(Cell::Null));
    }
}

/// Appends a row of lists of floats.
fn append_float_lists(builder: &mut FloatListsBuilder, vectors: &Vec<Vec<u32>>)
    requires
        ends_cover(nested_ends(*old(builder)), nested_values(*old(builder)).len()),
        slots_cover(nested_slots(*old(builder)), nested_ends(*old(builder)).len()),
        nested_values(*old(builder)).len() + total_len(nested(vectors@)) <= MAX_OFFSET,
        nested_ends(*old(builder)).len() + vectors@.len() <= MAX_OFFSET,
    ensures
        ends_cover(nested_ends(*final(builder)), nested_values(*final(builder)).len()),
        slots_cover(nested_slots(*final(builder)), nested_ends(*final(builder)).len()),
        nested_values(*final(builder)).len() == nested_values(*old(builder)).len() + total_len(
            nested(vectors@),
        ),
        nested_ends(*final(builder)).len() == nested_ends(*old(builder)).len() + vectors@.len(),
        nested_cells(
            list_rows(
                inner_lists(nested_values(*final(builder)), nested_ends(*final(builder))),
                nested_slots(*final(builder)),
            ),
        ) == nested_cells(
            list_rows(
                inner_lists(nested_values(*old(builder)), nested_ends(*old(builder))),
                nested_slots(*old(builder)),
            ),
        ).push(Cell::FloatLists(nested(vectors@))),
{
    let ghost lists = nested(vectors@);
    let ghost before = inner_lists(nested_values(*builder), nested_ends(*builder));
    let ghost slots = nested_slots(*builder);
    let mut i: usize = 0;
    proof {
        assert(lists.take(0) =~= Seq::<Seq<u32>>::empty());
        assert(before + lists.take(0) =~= before);
    }
    while i < vectors.len()
        invariant
            i <= vectors@.len(),
            lists == nested(vectors@),
            ends_cover(nested_ends(*builder), nested_values(*builder).len()),
            nested_slots(*builder) == slots,
            inner_lists(nested_values(*builder), nested_ends(*builder)) == before + lists.take(
                i as int,
            ),
            nested_values(*builder).len() == nested_values(*old(builder)).len() + total_len(
                lists.take(i as int),
            ),
            nested_values(*old(builder)).len() + total_len(lists) <= MAX_OFFSET,
        decreases vectors@.len() - i,
    {
        proof {
            lemma_total_len_step(lists, i as int);
            lemma_total_len_prefix(lists, i + 1);
            lemma_push_inner(nested_values(*builder), nested_ends(*builder), lists[i as int]);
            assert(before + lists.take(i + 1) =~= (before + lists.take(i as int)).push(
                lists[i as int],
            ));
        }
        builder.append_slice(&vectors[i]);
        builder.append_list();
        i += 1;
    }
    proof {
        assert(lists.take(i as int) =~= lists);
        assert(nested_ends(*builder).len() == (before + lists).len());
    }
    builder.append(true);
    proof {
        lemma_push_valid(before, slots, lists);
        assert(nested_cells(list_rows(before, slots).push(Some(lists))) =~= nested_cells(
            list_rows(before, slots),
        ).push(Cell::FloatLists(lists)));
    }
}

/// Appends a row without lists of floats.
fn append_float_lists_null(builder: &mut FloatListsBuilder)
    requires
        ends_cover(nested_ends(*old(builder)), nested_values(*old(builder)).len()),
        slots_cover(nested_slots(*old(builder)), nested_ends(*old(builder)).len()),
        nested_ends(*old(builder)).len() <= MAX_OFFSET,
    ensures
        ends_cover(nested_ends(*final(builder)), nested_values(*final(builder)).len()),
        slots_cover(nested_slots(*final(builder)), nested_ends(*final(builder)).len()),
        nested_values(*final(builder)).len() == nested_values(*old(builder)).len(),
        nested_ends(*final(builder)).len() == nested_ends(*old(builder)).len(),
        nested_cells(
            list_rows(
                inner_lists(nested_values(*final(builder)), nested_ends(*final(builder))),
                nested_slots(*final(builder)),
            ),
        ) == nested_cells(
            list_rows(
                inner_lists(nested_values(*old(builder)), nested_ends(*old(builder))),
                nested_slots(*old(builder)),
            ),
        ).push(Cell::Null),
{
    builder.append(false);
    proof {
        let lists = inner_lists(nested_values(*old(builder)), nested_ends(*old(builder)));
        let slots = nested_slots(*old(builder));
        lemma_push_null(lists, slots);
        assert(nested_cells(list_rows(lists, slots).push(None)) =~= nested_cells(
            list_rows(lists, slots),
        ).push(Cell::Null));
    }
}

} // verus!
