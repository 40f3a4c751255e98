//! Columns under construction, over Arrow's array builders.
//!
//! Each builder type keeps an Arrow builder private and offers the calls that column building
//! makes on it. What a builder holds goes by names that follow Arrow's layout: a list builder has
//! the values of all its lists in one sequence and, for each row, whether it is valid and where it
//! ends.

use std::sync::Arc;

use datafusion::arrow::array::{
    ArrayBuilder, ArrayRef, Float32Builder, ListBuilder, StringBuilder, UInt32Builder,
};
use datafusion::arrow::buffer::{Buffer, ScalarBuffer};
use vstd::prelude::*;
use vstd::utf8::encode_utf8;

use super::schema::{DataTypeView, FieldView};

verus! {

/// One value of a column. Floats go by their IEEE 754 bit pattern.
#[verifier::ext_equal]
pub enum Cell {
    Null,
    Text(Seq<char>),
    Indices(Seq<u32>),
    Floats(Seq<u32>),
    FloatLists(Seq<Seq<u32>>),
}

/// A column: its type and its values.
#[verifier::ext_equal]
pub struct ColumnView {
    pub data_type: DataTypeView,
    pub cells: Seq<Cell>,
}

/// The largest offset that an Arrow column can hold.
pub const MAX_OFFSET: usize = 0x7fff_ffff;

/// The type of lists of `item`, as list builders make it: nullable items named `item`.
pub open spec fn list_type(item: DataTypeView) -> DataTypeView {
    DataTypeView::List(
        Box::new(
            FieldView { name: "item"@, data_type: item, nullable: true, metadata_len: 0 },
        ),
    )
}

/// A finished column. Only the builders of this module make one, so it has one of their types.
#[verifier::external_body]
pub struct Column {
    pub(crate) array: ArrayRef,
}

/// What a finished column holds.
pub uninterp spec fn column_view(column: Column) -> ColumnView;

/// Builds a text column.
#[verifier::external_body]
pub struct TextBuilder {
    builder: StringBuilder,
}

/// The rows of a text column.
pub uninterp spec fn text_rows(builder: TextBuilder) -> Seq<Option<Seq<char>>>;

/// The number of bytes that the text of a row takes.
pub open spec fn row_size(row: Option<Seq<char>>) -> nat {
    match row {
        Some(text) => encode_utf8(text).len(),
        None => 0,
    }
}

/// The number of bytes that the text of all rows takes.
pub open spec fn text_size(rows: Seq<Option<Seq<char>>>) -> nat
    decreases rows.len(),
{
    if rows.len() == 0 {
        0
    } else {
        text_size(rows.drop_last()) + row_size(rows.last())
    }
}

/// The cells of text rows.
pub open spec fn text_cells(rows: Seq<Option<Seq<char>>>) -> Seq<Cell> {
    rows.map_values(
        |row: Option<Seq<char>>|
            match row {
                Some(text) => Cell::Text(text),
                None => Cell::Null,
            },
    )
}

impl TextBuilder {
    /// `StringBuilder::with_capacity`: a builder without rows. Its buffers are allocated at once,
    /// so each must fit in the address space.
    #[verifier::external_body]
    pub(crate) fn with_capacity(item_capacity: usize, data_capacity: usize) -> (builder: Self)
        requires
            (item_capacity + 1) * 4 <= isize::MAX,
            data_capacity <= isize::MAX,
        ensures
            text_rows(builder) == Seq::<Option<Seq<char>>>::empty(),
    {
        TextBuilder { builder: StringBuilder::with_capacity(item_capacity, data_capacity) }
    }

    /// `StringBuilder::values_slice` with the length of the result: the bytes of all rows so far.
    #[verifier::external_body]
    pub(crate) fn size(&self) -> (size: usize)
        ensures
            size == text_size(text_rows(*self)),
    {
        self.builder.values_slice().len()
    }

    /// `StringBuilder::append_value`: one more row, with that text. The call panics where the
    /// bytes of all rows outgrow the largest offset.
    #[verifier::external_body]
    pub(crate) fn append_value(&mut self, value: &str)
        requires
            text_size(text_rows(*old(self))) + encode_utf8(value@).len() <= MAX_OFFSET,
        ensures
            text_rows(*final(self)) == text_rows(*old(self)).push(Some(value@)),
    {
        self.builder.append_value(value);
    }

    /// `StringBuilder::append_null`: one more row, without text.
    #[verifier::external_body]
    pub(crate) fn append_null(&mut self)
        requires
            text_size(text_rows(*old(self))) <= MAX_OFFSET,
        ensures
            text_rows(*final(self)) == text_rows(*old(self)).push(None),
    {
        self.builder.append_null();
    }

    /// `StringBuilder::finish`: the column of the rows, of type `Utf8`.
    #[verifier::external_body]
    pub(crate) fn finish(self) -> (column: Column)
        ensures
            column_view(column) == (ColumnView {
                data_type: DataTypeView::Utf8,
                cells: text_cells(text_rows(self)),
            }),
    {
        let mut builder = self.builder;
        Column { array: Arc::new(builder.finish()) }
    }
}

/// Where the row at `index` starts, given for each row its validity and its end.
pub open spec fn slot_start(slots: Seq<(bool, nat)>, index: int) -> nat {
    if index <= 0 {
        0
    } else {
        slots[index - 1].1
    }
}

/// Whether rows of these ends cover `len` values, one row after the other.
pub open spec fn slots_cover(slots: Seq<(bool, nat)>, len: nat) -> bool {
    &&& slot_start(slots, slots.len() as int) == len
    &&& forall|i: int|
        0 <= i < slots.len() ==> slot_start(slots, i) <= (#[trigger] slots[i]).1 <= len
}

/// The rows of a list column.
pub open spec fn list_rows<A>(values: Seq<A>, slots: Seq<(bool, nat)>) -> Seq<Option<Seq<A>>> {
    Seq::new(
        slots.len(),
        |i: int|
            if slots[i].0 {
                Some(values.subrange(slot_start(slots, i) as int, slots[i].1 as int))
            } else {
                None
            },
    )
}

/// The row that a valid slot adds holds the values behind the rows before it.
pub proof fn lemma_push_valid<A>(values: Seq<A>, slots: Seq<(bool, nat)>, row: Seq<A>)
    requires
        slots_cover(slots, values.len()),
    ensures
        slots_cover(slots.push((true, values.len() + row.len())), values.len() + row.len()),
        list_rows(values + row, slots.push((true, values.len() + row.len()))) == list_rows(
            values,
            slots,
        ).push(Some(row)),
{
    let end = values.len() + row.len();
    let after = slots.push((true, end));
    assert forall|i: int| 0 <= i < after.len() implies slot_start(after, i) <= (
    #[trigger] after[i]).1 <= end by {
        if i < slots.len() {
            assert(after[i] == slots[i]);
        }
    }
    let rows = list_rows(values + row, after);
    assert forall|i: int| 0 <= i < after.len() implies rows[i] == list_rows(values, slots).push(
        Some(row),
    )[i] by {
        if i < slots.len() {
            assert(after[i] == slots[i]);
            let start = slot_start(slots, i) as int;
            assert((values + row).subrange(start, slots[i].1 as int) =~= values.subrange(
                start,
                slots[i].1 as int,
            ));
        } else {
            assert((values + row).subrange(values.len() as int, end as int) =~= row);
        }
    }
    assert(rows =~= list_rows(values, slots).push(Some(row)));
}

/// An invalid slot adds a row without a list.
pub proof fn lemma_push_null<A>(values: Seq<A>, slots: Seq<(bool, nat)>)
    requires
        slots_cover(slots, values.len()),
    ensures
        slots_cover(slots.push((false, values.len())), values.len()),
        list_rows(values, slots.push((false, values.len()))) == list_rows(values, slots).push(None),
{
    let after = slots.push((false, values.len()));
    assert forall|i: int| 0 <= i < after.len() implies slot_start(after, i) <= (
    #[trigger] after[i]).1 <= values.len() by {
        if i < slots.len() {
            assert(after[i] == slots[i]);
        }
    }
    assert(list_rows(values, after) =~= list_rows(values, slots).push(None));
}

/// Builds a column of lists of positions.
#[verifier::external_body]
pub struct IndexListBuilder {
    builder: ListBuilder<UInt32Builder>,
}

/// The values of all lists of positions.
pub uninterp spec fn index_values(builder: IndexListBuilder) -> Seq<u32>;

/// For each row, whether it is valid and where it ends.
pub uninterp spec fn index_slots(builder: IndexListBuilder) -> Seq<(bool, nat)>;

/// The cells of rows of positions.
pub open spec fn index_cells(rows: Seq<Option<Seq<u32>>>) -> Seq<Cell> {
    rows.map_values(
        |row: Option<Seq<u32>>|
            match row {
                Some(indices) => Cell::Indices(indices),
                None => Cell::Null,
            },
    )
}

impl IndexListBuilder {
    /// `ListBuilder::with_capacity` over `UInt32Builder::new`: a builder without values and rows.
    /// The offsets are allocated at once, so they must fit in the address space.
    #[verifier::external_body]
    pub(crate) fn with_capacity(capacity: usize) -> (builder: Self)
        requires
            (capacity + 1) * 4 <= isize::MAX,
        ensures
            index_values(builder) == Seq::<u32>::empty(),
            index_slots(builder) == Seq::<(bool, nat)>::empty(),
    {
        IndexListBuilder { builder: ListBuilder::with_capacity(UInt32Builder::new(), capacity) }
    }

    /// `ListBuilder::values_ref` with the length of the result: the number of values so far.
    #[verifier::external_body]
    pub(crate) fn values_len(&self) -> (len: usize)
        ensures
            len == index_values(*self).len(),
    {
        self.builder.values_ref().len()
    }

    /// `UInt32Builder::append_slice` on `ListBuilder::values`: the values, behind those before.
    #[verifier::external_body]
    pub(crate) fn append_slice(&mut self, data: &Vec<u32>)
        requires
            index_values(*old(self)).len() + data@.len() <= MAX_OFFSET,
        ensures
            index_values(*final(self)) == index_values(*old(self)) + data@,
            index_slots(*final(self)) == index_slots(*old(self)),
    {
        self.builder.values().append_slice(data);
    }

    /// `ListBuilder::append`: a row that ends behind the last value. The call panics where the
    /// number of values is over the largest offset.
    #[verifier::external_body]
    pub(crate) fn append(&mut self, is_valid: bool)
        requires
            index_values(*old(self)).len() <= MAX_OFFSET,
        ensures
            index_values(*final(self)) == index_values(*old(self)),
            index_slots(*final(self)) == index_slots(*old(self)).push(
                (is_valid, index_values(*old(self)).len()),
            ),
    {
        self.builder.append(is_valid);
    }

    /// `ListBuilder::finish`: the column of the rows, a list of nullable `UInt32` items.
    #[verifier::external_body]
    pub(crate) fn finish(self) -> (column: Column)
        ensures
            column_view(column) == (ColumnView {
                data_type: list_type(DataTypeView::UInt32),
                cells: index_cells(list_rows(index_values(self), index_slots(self))),
            }),
    {
        let mut builder = self.builder;
        Column { array: Arc::new(builder.finish()) }
    }
}

/// Builds a column of lists of floats.
#[verifier::external_body]
pub struct FloatListBuilder {
    builder: ListBuilder<Float32Builder>,
}

/// The bit patterns of all floats of all lists.
pub uninterp spec fn float_values(builder: FloatListBuilder) -> Seq<u32>;

/// For each row, whether it is valid and where it ends.
pub uninterp spec fn float_slots(builder: FloatListBuilder) -> Seq<(bool, nat)>;

/// The cells of rows of floats.
pub open spec fn float_cells(rows: Seq<Option<Seq<u32>>>) -> Seq<Cell> {
    rows.map_values(
        |row: Option<Seq<u32>>|
            match row {
                Some(floats) => Cell::Floats(floats),
                None => Cell::Null,
            },
    )
}

impl FloatListBuilder {
    /// `ListBuilder::with_capacity` over `Float32Builder::new`: a builder without values and rows.
    /// The offsets are allocated at once, so they must fit in the address space.
    #[verifier::external_body]
    pub(crate) fn with_capacity(capacity: usize) -> (builder: Self)
        requires
            (capacity + 1) * 4 <= isize::MAX,
        ensures
            float_values(builder) == Seq::<u32>::empty(),
            float_slots(builder) == Seq::<(bool, nat)>::empty(),
    {
        FloatListBuilder { builder: ListBuilder::with_capacity(Float32Builder::new(), capacity) }
    }

    /// `ListBuilder::values_ref` with the length of the result: the number of values so far.
    #[verifier::external_body]
    pub(crate) fn values_len(&self) -> (len: usize)
        ensures
            len == float_values(*self).len(),
    {
        self.builder.values_ref().len()
    }

    /// `Float32Builder::append_slice` on `ListBuilder::values`: the floats of these bit patterns,
    /// behind those before. `ScalarBuffer` reads the bytes of the patterns as floats.
    #[verifier::external_body]
    pub(crate) fn append_slice(&mut self, data: &Vec<u32>)
        requires
            float_values(*old(self)).len() + data@.len() <= MAX_OFFSET,
        ensures
            float_values(*final(self)) == float_values(*old(self)) + data@,
            float_slots(*final(self)) == float_slots(*old(self)),
    {
        let floats = ScalarBuffer::from(Buffer::from_vec(data.clone()));
        self.builder.values().append_slice(&floats);
    }

    /// `ListBuilder::append`: a row that ends behind the last value. The call panics where the
    /// number of values is over the largest offset.
    #[verifier::external_body]
    pub(crate) fn append(&mut self, is_valid: bool)
        requires
            float_values(*old(self)).len() <= MAX_OFFSET,
        ensures
            float_values(*final(self)) == float_values(*old(self)),
            float_slots(*final(self)) == float_slots(*old(self)).push(
                (is_valid, float_values(*old(self)).len()),
            ),
    {
        self.builder.append(is_valid);
    }

    /// `ListBuilder::finish`: the column of the rows, a list of nullable `Float32` items.
    #[verifier::external_body]
    pub(crate) fn finish(self) -> (column: Column)
        ensures
            column_view(column) == (ColumnView {
                data_type: list_type(DataTypeView::Float32),
                cells: float_cells(list_rows(float_values(self), float_slots(self))),
            }),
    {
        let mut builder = self.builder;
        Column { array: Arc::new(builder.finish()) }
    }
}

/// Builds a column of lists of lists of floats.
#[verifier::external_body]
pub struct FloatListsBuilder {
    builder: ListBuilder<ListBuilder<Float32Builder>>,
}

/// The bit patterns of all floats of all inner lists.
pub uninterp spec fn nested_values(builder: FloatListsBuilder) -> Seq<u32>;

/// For each inner list, where it ends.
pub uninterp spec fn nested_ends(builder: FloatListsBuilder) -> Seq<nat>;

/// For each row, whether it is valid and at which inner list it ends.
pub uninterp spec fn nested_slots(builder: FloatListsBuilder) -> Seq<(bool, nat)>;

/// Where the inner list at `index` starts, given the end of each.
pub open spec fn inner_start(ends: Seq<nat>, index: int) -> nat {
    if index <= 0 {
        0
    } else {
        ends[index - 1]
    }
}

/// Whether inner lists of these ends cover `len` values, one list after the other.
pub open spec fn ends_cover(ends: Seq<nat>, len: nat) -> bool {
    &&& inner_start(ends, ends.len() as int) == len
    &&& forall|i: int| 0 <= i < ends.len() ==> inner_start(ends, i) <= #[trigger] ends[i] <= len
}

/// The inner lists.
pub open spec fn inner_lists(values: Seq<u32>, ends: Seq<nat>) -> Seq<Seq<u32>> {
    Seq::new(ends.len(), |i: int| values.subrange(inner_start(ends, i) as int, ends[i] as int))
}

/// An inner list that is closed holds the values behind the lists before it.
pub proof fn lemma_push_inner(values: Seq<u32>, ends: Seq<nat>, list: Seq<u32>)
    requires
        ends_cover(ends, values.len()),
    ensures
        ends_cover(ends.push(values.len() + list.len()), values.len() + list.len()),
        inner_lists(values + list, ends.push(values.len() + list.len())) == inner_lists(
            values,
            ends,
        ).push(list),
{
    let end = values.len() + list.len();
    let after = ends.push(end);
    assert forall|i: int| 0 <= i < after.len() implies inner_start(after, i) <= #[trigger] after[i]
        <= end by {
        if i < ends.len() {
            assert(after[i] == ends[i]);
        }
    }
    let lists = inner_lists(values + list, after);
    assert forall|i: int| 0 <= i < after.len() implies lists[i] == inner_lists(values, ends).push(
        list,
    )[i] by {
        if i < ends.len() {
            assert(after[i] == ends[i]);
            let start = inner_start(ends, i) as int;
            assert((values + list).subrange(start, ends[i] as int) =~= values.subrange(
                start,
                ends[i] as int,
            ));
        } else {
            assert((values + list).subrange(values.len() as int, end as int) =~= list);
        }
    }
    assert(lists =~= inner_lists(values, ends).push(list));
}

/// The cells of rows of lists of floats.
pub open spec fn nested_cells(rows: Seq<Option<Seq<Seq<u32>>>>) -> Seq<Cell> {
    rows.map_values(
        |row: Option<Seq<Seq<u32>>>|
            match row {
                Some(lists) => Cell::FloatLists(lists),
                None => Cell::Null,
            },
    )
}

impl FloatListsBuilder {
    /// `ListBuilder::with_capacity` over `ListBuilder::new` over `Float32Builder::new`: a builder
    /// without values, lists and rows. The offsets are allocated at once, so they must fit in the
    /// address space.
    #[verifier::external_body]
    pub(crate) fn with_capacity(capacity: usize) -> (builder: Self)
        requires
            (capacity + 1) * 4 <= isize::MAX,
        ensures
            nested_values(builder) == Seq::<u32>::empty(),
            nested_ends(builder) == Seq::<nat>::empty(),
            nested_slots(builder) == Seq::<(bool, nat)>::empty(),
    {
        let inner = ListBuilder::new(Float32Builder::new());
        FloatListsBuilder { builder: ListBuilder::with_capacity(inner, capacity) }
    }

    /// `ListBuilder::values_ref`, twice, with the length of the result: the number of floats.
    #[verifier::external_body]
    pub(crate) fn values_len(&self) -> (len: usize)
        ensures
            len == nested_values(*self).len(),
    {
        self.builder.values_ref().values_ref().len()
    }

    /// `ListBuilder::values_ref` with the length of the result: the number of inner lists.
    #[verifier::external_body]
    pub(crate) fn lists_len(&self) -> (len: usize)
        ensures
            len == nested_ends(*self).len(),
    {
        self.builder.values_ref().len()
    }

    /// `Float32Builder::append_slice` on the values of `ListBuilder::values`: the floats of these
    /// bit patterns, behind those before. `ScalarBuffer` reads the bytes of the patterns as floats.
    #[verifier::external_body]
    pub(crate) fn append_slice(&mut self, data: &Vec<u32>)
        requires
            nested_values(*old(self)).len() + data@.len() <= MAX_OFFSET,
        ensures
            nested_values(*final(self)) == nested_values(*old(self)) + data@,
            nested_ends(*final(self)) == nested_ends(*old(self)),
            nested_slots(*final(self)) == nested_slots(*old(self)),
    {
        let floats = ScalarBuffer::from(Buffer::from_vec(data.clone()));
        self.builder.values().values().append_slice(&floats);
    }

    /// `ListBuilder::append` on `ListBuilder::values`, for a valid list: an inner list that ends
    /// behind the last float. The call panics where the number of floats is over the largest
    /// offset.
    #[verifier::external_body]
    pub(crate) fn append_list(&mut self)
        requires
            nested_values(*old(self)).len() <= MAX_OFFSET,
        ensures
            nested_values(*final(self)) == nested_values(*old(self)),
            nested_ends(*final(self)) == nested_ends(*old(self)).push(
                nested_values(*old(self)).len(),
            ),
            nested_slots(*final(self)) == nested_slots(*old(self)),
    {
        self.builder.values().append(true);
    }

    /// `ListBuilder::append`: a row that ends behind the last inner list. The call panics where
    /// the number of inner lists is over the largest offset.
    #[verifier::external_body]
    pub(crate) fn append(&mut self, is_valid: bool)
        requires
            nested_ends(*old(self)).len() <= MAX_OFFSET,
        ensures
            nested_values(*final(self)) == nested_values(*old(self)),
            nested_ends(*final(self)) == nested_ends(*old(self)),
            nested_slots(*final(self)) == nested_slots(*old(self)).push(
                (is_valid, nested_ends(*old(self)).len()),
            ),
    {
        self.builder.append(is_valid);
    }

    /// `ListBuilder::finish`: the column of the rows, a list of nullable lists of nullable
    /// `Float32` items.
    #[verifier::external_body]
    pub(crate) fn finish(self) -> (column: Column)
        ensures
            column_view(column) == (ColumnView {
                data_type: list_type(list_type(DataTypeView::Float32)),
                cells: nested_cells(
                    list_rows(
                        inner_lists(nested_values(self), nested_ends(self)),
                        nested_slots(self),
                    ),
                ),
            }),
    {
        let mut builder = self.builder;
        Column { array: Arc::new(builder.finish()) }
    }
}

} // verus!
