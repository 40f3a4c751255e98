//! Schema-driven record batch building.

use datafusion::arrow::datatypes::{Schema, SchemaRef};
use vstd::arithmetic::div_mod::lemma_fundamental_div_mod;
use vstd::hash_map::StringHashMap;
use vstd::prelude::*;

use super::batch::{assembles, batch_columns, batch_schema, column_views, try_new, Batch};
use super::columns::{column_view, Column, ColumnView};
use super::extractor::{
    can_allocate, capacity_fits, field_source, has_room, id_text, id_text_of, source_cell,
    source_type, FieldExtractor, Row, RowView,
};
use super::schema::{field_views, read_fields, schema_fields, FieldView};
use crate::error::{Error, MalformedMultiVector};
use crate::payload::{payload_text, renders};
use crate::qdrant::{
    id_view, vector_output, vectors_output, vectors_view, DenseVector, NamedVectorsOutput,
    ScoredPoint, SparseVector, VectorOutput, VectorOutputView, VectorView, VectorsOutput,
    VectorsView,
};

verus! {

/// Whether flat data of length `len` splits evenly into `count` vectors.
pub open spec fn splits_evenly(len: nat, count: u32) -> bool {
    count > 0 && len % (count as nat) == 0
}

/// `data` cut into `count` consecutive vectors of equal length.
pub open spec fn split<T>(data: Seq<T>, count: u32) -> Seq<Seq<T>> {
    let size = data.len() / (count as nat);
    Seq::new(count as nat, |i: int| data.subrange(i * size, (i + 1) * size))
}

/// The contents of nested vectors.
pub open spec fn nested<T>(vectors: Seq<Vec<T>>) -> Seq<Seq<T>> {
    Seq::new(vectors.len(), |i: int| vectors[i]@)
}

/// Splits flat multi-vector data into `vectors_count` vectors of equal length.
pub fn convert_to_multi_vector<T: Copy>(data: &[T], vectors_count: u32) -> (res: Result<
    Vec<Vec<T>>,
    Error,
>)
    requires
        data@.len() > 0,
    ensures
        match res {
            Ok(vectors) => splits_evenly(data@.len(), vectors_count) && nested(vectors@) == split(
                data@,
                vectors_count,
            ),
            Err(Error::MalformedMultiVector(error)) => {
                &&& !splits_evenly(data@.len(), vectors_count)
                &&& error.data_len == data@.len()
                &&& error.vectors_count == vectors_count
            },
            Err(_) => false,
        },
{
    let len: usize = data.len();
    let count: usize = vectors_count as usize;
    if count == 0 || len % count != 0 {
        return Err(
            Error::MalformedMultiVector(MalformedMultiVector { data_len: len, vectors_count }),
        );
    }
    let size: usize = len / count;
    proof {
        lemma_fundamental_div_mod(len as int, count as int);
    }
    let mut vectors: Vec<Vec<T>> = Vec::new();
    let mut i: usize = 0;
    let mut start: usize = 0;
    while i < count
        invariant
            i <= count,
            count == vectors_count,
            len == data@.len(),
            len == count * size,
            size == data@.len() / (vectors_count as nat),
            start == i * size,
            vectors@.len() == i,
            forall|k: int|
                0 <= k < i ==> (#[trigger] vectors@[k])@ == data@.subrange(
                    k * size,
                    (k + 1) * size,
                ),
        decreases count - i,
    {
        proof {
            assert((i + 1) * size == i * size + size) by (nonlinear_arith);
            assert((i + 1) * size <= count * size) by (nonlinear_arith)
                requires
                    i + 1 <= count,
            ;
        }
        let mut vector: Vec<T> = Vec::new();
        let mut j: usize = 0;
        while j < size
            invariant
                j <= size,
                start + size <= len,
                len == data@.len(),
                vector@ == data@.subrange(start as int, start + j),
            decreases size - j,
        {
            vector.push(data[start + j]);
            j += 1;
            proof {
                assert(vector@ =~= data@.subrange(start as int, start + j));
            }
        }
        vectors.push(vector);
        start += size;
        i += 1;
    }
    proof {
        assert(nested(vectors@) =~= split(data@, vectors_count));
    }
    Ok(vectors)
}

/// A vector of a point, whichever format it came in.
#[derive(Debug)]
pub enum Vector<T> {
    Dense(Vec<T>),
    Sparse(SparseVector<T>),
    MultiDense(Vec<Vec<T>>),
}

impl<T> View for Vector<T> {
    type V = VectorView<T>;

    open spec fn view(&self) -> VectorView<T> {
        match self {
            Vector::Dense(data) => VectorView::Dense(data@),
            Vector::Sparse(sparse) => VectorView::Sparse {
                indices: sparse.indices@,
                values: sparse.values@,
            },
            Vector::MultiDense(vectors) => VectorView::MultiDense(nested(vectors@)),
        }
    }
}

/// Whether an output can be read: flat data that claims to hold a number of vectors is not empty.
pub open spec fn readable<T>(output: VectorOutputView<T>) -> bool {
    output.vector is Some || output.vectors_count is None || output.data.len() > 0
}

/// The vector that an output describes. The current format comes first; of the flat format, a
/// count that splits the data evenly makes a multi-vector, indices make a sparse vector, and
/// other data is dense unless it is empty.
pub open spec fn content<T>(output: VectorOutputView<T>) -> Option<VectorView<T>> {
    if output.vector is Some {
        output.vector
    } else if output.vectors_count is Some && splits_evenly(
        output.data.len(),
        output.vectors_count->0,
    ) {
        Some(VectorView::MultiDense(split(output.data, output.vectors_count->0)))
    } else if output.indices is Some {
        Some(VectorView::Sparse { indices: output.indices->0, values: output.data })
    } else if output.data.len() == 0 {
        None
    } else {
        Some(VectorView::Dense(output.data))
    }
}

/// The data of each dense vector.
fn dense_data<T>(vectors: Vec<DenseVector<T>>) -> (data: Vec<Vec<T>>)
    ensures
        data@.len() == vectors@.len(),
        forall|i: int| 0 <= i < data@.len() ==> #[trigger] data@[i] == vectors@[i].data,
{
    let mut data: Vec<Vec<T>> = Vec::new();
    for vector in it: vectors
        invariant
            it.seq() == vectors@,
            data@.len() == it.index(),
            forall|i: int| 0 <= i < data@.len() ==> #[trigger] data@[i] == it.seq()[i].data,
    {
        data.push(vector.data);
    }
    data
}

impl<T: Copy> Vector<T> {
    /// Extracts the vector that `vector_output` describes.
    pub fn from_vector_output(vector_output: VectorOutput<T>) -> (vector: Option<Self>)
        requires
            readable(vector_output@),
        ensures
            match vector {
                Some(vector) => content(vector_output@) == Some(vector@),
                None => content(vector_output@) is None,
            },
    {
        if let Some(vector) = vector_output.vector {
            return match vector {
                vector_output::Vector::Dense(dense) => Some(Vector::Dense(dense.data)),
                vector_output::Vector::Sparse(sparse) => Some(Vector::Sparse(sparse)),
                vector_output::Vector::MultiDense(multi) => {
                    let ghost view = multi@;
                    let vectors = dense_data(multi.vectors);
                    proof {
                        assert(nested(vectors@) =~= view);
                    }
                    Some(Vector::MultiDense(vectors))
                },
            };
        }
        if let Some(vectors_count) = vector_output.vectors_count {
            if let Ok(vectors) = convert_to_multi_vector(
                vector_output.data.as_slice(),
                vectors_count,
            ) {
                return Some(Vector::MultiDense(vectors));
            }
        }
        if let Some(indices) = vector_output.indices {
            return Some(
                Vector::Sparse(
                    SparseVector { indices: indices.data, values: vector_output.data },
                ),
            );
        }
        if vector_output.data.len() == 0 {
            return None;
        }
        Some(Vector::Dense(vector_output.data))
    }
}

/// Whether all named vectors can be read.
pub open spec fn named_readable<T>(named: Seq<(Seq<char>, VectorOutputView<T>)>) -> bool {
    forall|i: int| 0 <= i < named.len() ==> readable((#[trigger] named[i]).1)
}

/// Whether all vectors of a point can be read.
pub open spec fn all_readable<T>(vectors: VectorsView<T>) -> bool {
    match vectors {
        VectorsView::Unnamed(output) => readable(output),
        VectorsView::Named(named) => named_readable(named),
        VectorsView::Missing => true,
    }
}

/// Whether `output` can be read.
fn can_read<T>(output: &VectorOutput<T>) -> (found: bool)
    ensures
        found == readable(output@),
{
    output.vector.is_some() || output.vectors_count.is_none() || output.data.len() > 0
}

/// Whether all named vectors can be read.
fn can_read_named<T>(named: &NamedVectorsOutput<T>) -> (found: bool)
    ensures
        found == named_readable(named@),
{
    let mut i: usize = 0;
    while i < named.vectors.len()
        invariant
            i <= named.vectors@.len(),
            forall|k: int| 0 <= k < i ==> readable((#[trigger] named@[k]).1),
        decreases named.vectors@.len() - i,
    {
        let entry = &named.vectors[i];
        if !can_read(&entry.1) {
            proof {
                assert(!readable(named@[i as int].1));
            }
            return false;
        }
        i += 1;
    }
    true
}

/// Whether all vectors of a point can be read, so that the point can be appended.
pub fn can_read_all<T>(vectors: &Option<VectorsOutput<T>>) -> (found: bool)
    ensures
        found == all_readable(vectors_view(*vectors)),
{
    match vectors {
        Some(vectors) => match &vectors.vectors_options {
            Some(vectors_output::VectorsOptions::Vector(output)) => can_read(output),
            Some(vectors_output::VectorsOptions::Vectors(named)) => can_read_named(named),
            None => true,
        },
        None => true,
    }
}

/// The vectors of `named` by name, without those that are empty.
pub open spec fn named_lookup<T>(named: Seq<(Seq<char>, VectorOutputView<T>)>) -> Map<
    Seq<char>,
    VectorView<T>,
>
    decreases named.len(),
{
    if named.len() == 0 {
        Map::empty()
    } else {
        let before = named_lookup(named.drop_last());
        match content(named.last().1) {
            Some(vector) => before.insert(named.last().0, vector),
            None => before,
        }
    }
}

/// The vectors of a point by name. A vector without a name goes by `vector`.
pub open spec fn lookup<T>(vectors: VectorsView<T>) -> Map<Seq<char>, VectorView<T>> {
    match vectors {
        VectorsView::Unnamed(output) => match content(output) {
            Some(vector) => Map::empty().insert("vector"@, vector),
            None => Map::empty(),
        },
        VectorsView::Named(named) => named_lookup(named),
        VectorsView::Missing => Map::empty(),
    }
}

/// The contents of a lookup table.
pub open spec fn table_view<T>(table: Map<Seq<char>, Vector<T>>) -> Map<Seq<char>, VectorView<T>> {
    table.map_values(|vector: Vector<T>| vector@)
}

/// Collects the vectors of a point by name.
pub fn build_vector_lookup<T: Copy>(vectors: Option<VectorsOutput<T>>) -> (table: StringHashMap<
    Vector<T>,
>)
    requires
        all_readable(vectors_view(vectors)),
    ensures
        table_view(table@) == lookup(vectors_view(vectors)),
{
    let mut table: StringHashMap<Vector<T>> = StringHashMap::new();
    proof {
        assert(table_view(table@) =~= Map::empty());
    }
    if let Some(vectors) = vectors {
        match vectors.vectors_options {
            Some(vectors_output::VectorsOptions::Vector(vector_output)) => {
                if let Some(content) = Vector::from_vector_output(vector_output) {
                    table.insert("vector".to_owned(), content);
                    proof {
                        assert(table_view(table@) =~= Map::empty().insert("vector"@, content@));
                    }
                }
            },
            Some(vectors_output::VectorsOptions::Vectors(named_vectors)) => {
                let ghost named = named_vectors@;
                for entry in it: named_vectors.vectors
                    invariant
                        named == named_vectors@,
                        it.seq() == named_vectors.vectors@,
                        named_readable(named),
                        table_view(table@) == named_lookup(named.take(it.index() as int)),
                {
                    let ghost index = it.index() as int;
                    let ghost before = table@;
                    let (name, vector_output) = entry;
                    proof {
                        assert(named[index] == (name@, vector_output@));
                        assert(named.take(index + 1).drop_last() =~= named.take(index));
                    }
                    if let Some(content) = Vector::from_vector_output(vector_output) {
                        let ghost key = name@;
                        table.insert(name, content);
                        proof {
                            assert(table_view(table@) =~= table_view(before).insert(key, content@));
                        }
                    }
                }
                proof {
                    assert(named.take(named.len() as int) =~= named);
                }
            },
            None => {},
        }
    }
    table
}

/// Whether the columns of these fields can set aside room for `capacity` rows.
pub open spec fn all_capacity_fits(fields: Seq<FieldView>, capacity: usize) -> bool {
    forall|i: int| 0 <= i < fields.len() ==> capacity_fits(#[trigger] fields[i], capacity)
}

/// Columns without rows, one for each field.
pub open spec fn empty_columns(fields: Seq<FieldView>) -> Seq<ColumnView> {
    Seq::new(
        fields.len(),
        |i: int|
            ColumnView { data_type: source_type(field_source(fields[i])), cells: Seq::empty() },
    )
}

/// The columns of these fields with one more row.
pub open spec fn with_row(
    fields: Seq<FieldView>,
    columns: Seq<ColumnView>,
    row: RowView,
) -> Seq<ColumnView> {
    Seq::new(
        columns.len(),
        |i: int|
            ColumnView {
                data_type: columns[i].data_type,
                cells: columns[i].cells.push(source_cell(field_source(fields[i]), row)),
            },
    )
}

/// Whether every column of these fields has room for one more row.
pub open spec fn row_fits(
    fields: Seq<FieldView>,
    columns: Seq<ColumnView>,
    row: RowView,
) -> bool {
    forall|i: int|
        0 <= i < columns.len() ==> has_room(
            (#[trigger] columns[i]).cells,
            source_cell(field_source(fields[i]), row),
        )
}

/// Whether one of the fields is the payload.
pub open spec fn has_payload(fields: Seq<FieldView>) -> bool {
    exists|i: int| 0 <= i < fields.len() && field_source(#[trigger] fields[i]) is Payload
}

/// Whether `row` is what the columns of these fields read of `point`. Without a payload column the
/// payload is not rendered.
pub open spec fn reads(fields: Seq<FieldView>, point: ScoredPoint, row: RowView) -> bool {
    &&& row.id == id_text_of(id_view(point.id))
    &&& row.vectors == lookup(vectors_view(point.vectors))
    &&& if has_payload(fields) {
        renders(point.payload@, row.json)
    } else {
        row.json is None
    }
}

/// Builds a record batch from points, driven by a schema: one column for each field, in the order
/// of the fields, and one row for each point.
pub struct QdrantRecordBatchBuilder {
    schema: SchemaRef,
    field_extractors: Vec<FieldExtractor>,
}

impl QdrantRecordBatchBuilder {
    /// The schema.
    pub closed spec fn schema(&self) -> Schema {
        *self.schema
    }

    /// The fields of the schema.
    pub open spec fn fields(&self) -> Seq<FieldView> {
        schema_fields(self.schema())
    }

    /// The columns so far.
    pub closed spec fn columns(&self) -> Seq<ColumnView> {
        Seq::new(
            self.field_extractors@.len(),
            |i: int|
                ColumnView {
                    data_type: source_type(self.field_extractors@[i].source()),
                    cells: self.field_extractors@[i].cells(),
                },
        )
    }

    /// Whether each field has its column, and all columns are equally long.
    pub closed spec fn wf(&self) -> bool {
        &&& self.field_extractors@.len() == self.fields().len()
        &&& forall|i: int|
            0 <= i < self.field_extractors@.len() ==> {
                &&& (#[trigger] self.field_extractors@[i]).wf()
                &&& self.field_extractors@[i].source() == field_source(self.fields()[i])
                &&& self.field_extractors@[i].cells().len()
                    == self.field_extractors@[0].cells().len()
            }
    }

    /// Whether `res` and `after` are what comes of appending `point`: a row that the columns read
    /// of the point is added, or nothing changes where a column has no room for it.
    pub open spec fn appends(
        before: Self,
        point: ScoredPoint,
        res: Result<(), Error>,
        after: Self,
    ) -> bool {
        exists|row: RowView| #[trigger]
            reads(before.fields(), point, row) && if row_fits(
                before.fields(),
                before.columns(),
                row,
            ) {
                &&& res is Ok
                &&& after.columns() == with_row(before.fields(), before.columns(), row)
            } else {
                &&& res == Err::<(), Error>(Error::ColumnOverflow)
                &&& after.columns() == before.columns()
            }
    }

    /// Whether `res` is what comes of finishing: a batch of the columns under the schema where they
    /// make one, and an error of Arrow otherwise.
    pub open spec fn finishes(&self, res: Result<Batch, Error>) -> bool {
        match res {
            Ok(batch) => {
                &&& assembles(self.fields(), self.columns())
                &&& batch_schema(batch) == self.schema()
                &&& batch_columns(batch) == self.columns()
            },
            Err(Error::Arrow(_)) => !assembles(self.fields(), self.columns()),
            Err(_) => false,
        }
    }

    /// Makes a builder for the fields of `schema`, with room for `point_count` rows.
    pub fn new(schema: SchemaRef, point_count: usize) -> (builder: Self)
        requires
            all_capacity_fits(schema_fields(*schema), point_count),
        ensures
            builder.wf(),
            builder.schema() == *schema,
            builder.columns() == empty_columns(schema_fields(*schema)),
    {
        let fields = read_fields(&schema);
        let mut field_extractors: Vec<FieldExtractor> = Vec::new();
        let mut i: usize = 0;
        while i < fields.len()
            invariant
                i <= fields@.len(),
                field_views(fields@) == schema_fields(*schema),
                all_capacity_fits(schema_fields(*schema), point_count),
                field_extractors@.len() == i,
                forall|k: int|
                    0 <= k < i ==> (#[trigger] field_extractors@[k]).is_fresh(fields@[k]@),
            decreases fields@.len() - i,
        {
            proof {
                assert(field_views(fields@)[i as int] == fields@[i as int]@);
            }
            field_extractors.push(FieldExtractor::from_schema_field(&fields[i], point_count));
            i += 1;
        }
        let builder = QdrantRecordBatchBuilder { schema, field_extractors };
        proof {
            assert forall|k: int| 0 <= k < fields@.len() implies fields@[k]@
                == #[trigger] builder.fields()[k] by {
                assert(field_views(fields@)[k] == fields@[k]@);
            }
            assert(builder.columns() =~= empty_columns(builder.fields()));
        }
        builder
    }

    /// Makes a builder for the fields of `schema`, or none where room for `point_count` rows cannot
    /// be set aside.
    pub fn checked_new(schema: SchemaRef, point_count: usize) -> (res: Option<Self>)
        ensures
            match res {
                Some(builder) => {
                    &&& all_capacity_fits(schema_fields(*schema), point_count)
                    &&& builder.wf()
                    &&& builder.schema() == *schema
                    &&& builder.columns() == empty_columns(schema_fields(*schema))
                },
                None => !all_capacity_fits(schema_fields(*schema), point_count),
            },
    {
        let fields = read_fields(&schema);
        let mut i: usize = 0;
        while i < fields.len()
            invariant
                i <= fields@.len(),
                field_views(fields@) == schema_fields(*schema),
                forall|k: int|
                    0 <= k < i ==> capacity_fits(
                        #[trigger] schema_fields(*schema)[k],
                        point_count,
                    ),
            decreases fields@.len() - i,
        {
            proof {
                assert(field_views(fields@)[i as int] == fields@[i as int]@);
            }
            if !can_allocate(&fields[i], point_count) {
                return None;
            }
            i += 1;
        }
        Some(Self::new(schema, point_count))
    }

    /// Whether there is a payload column.
    fn reads_payload(&self) -> (found: bool)
        requires
            self.wf(),
        ensures
            found == has_payload(self.fields()),
    {
        let mut i: usize = 0;
        while i < self.field_extractors.len()
            invariant
                i <= self.field_extractors@.len(),
                self.wf(),
                forall|k: int|
                    0 <= k < i ==> !(field_source(#[trigger] self.fields()[k]) is Payload),
            decreases self.field_extractors@.len() - i,
        {
            if let FieldExtractor::Payload(_) = &self.field_extractors[i] {
                proof {
                    assert(self.field_extractors@[i as int].source() == field_source(
                        self.fields()[i as int],
                    ));
                }
                return true;
            }
            proof {
                assert(self.field_extractors@[i as int].source() == field_source(
                    self.fields()[i as int],
                ));
            }
            i += 1;
        }
        false
    }

    /// Whether the column at `i` has room for its cell of `row`.
    fn column_fits(&self, i: usize, row: &Row) -> (fits: bool)
        requires
            self.wf(),
            i < self.field_extractors@.len(),
        ensures
            fits == has_room(
                self.columns()[i as int].cells,
                source_cell(field_source(self.fields()[i as int]), row@),
            ),
    {
        proof {
            assert(self.columns()[i as int].cells == self.field_extractors@[i as int].cells());
        }
        self.field_extractors[i].fits(row)
    }

    /// Whether every column has room for `row`.
    #[verifier::spinoff_prover]
    pub fn fits(&self, row: &Row) -> (fits: bool)
        requires
            self.wf(),
        ensures
            fits == row_fits(self.fields(), self.columns(), row@),
    {
        let mut i: usize = 0;
        while i < self.field_extractors.len()
            invariant
                i <= self.field_extractors@.len(),
                self.wf(),
                self.field_extractors@.len() == self.columns().len(),
                forall|k: int|
                    0 <= k < i ==> has_room(
                        (#[trigger] self.columns()[k]).cells,
                        source_cell(field_source(self.fields()[k]), row@),
                    ),
            decreases self.field_extractors@.len() - i,
        {
            if !self.column_fits(i, row) {
                return false;
            }
            i += 1;
        }
        true
    }

    /// Appends `row` to the columns.
    pub fn append_row(&mut self, row: &Row)
        requires
            old(self).wf(),
            row_fits(old(self).fields(), old(self).columns(), row@),
        ensures
            final(self).wf(),
            final(self).schema() == old(self).schema(),
            final(self).columns() == with_row(old(self).fields(), old(self).columns(), row@),
    {
        let ghost before = *self;
        let len: usize = self.field_extractors.len();
        let mut i: usize = 0;
        while i < len
            invariant
                i <= len,
                before.wf(),
                row_fits(before.fields(), before.columns(), row@),
                self.schema == before.schema,
                len == before.field_extractors@.len(),
                self.field_extractors@.len() == len,
                forall|k: int|
                    0 <= k < i ==> {
                        &&& (#[trigger] self.field_extractors@[k]).wf()
                        &&& self.field_extractors@[k].source()
                            == before.field_extractors@[k].source()
                        &&& self.field_extractors@[k].cells()
                            == before.field_extractors@[k].cells().push(
                            source_cell(before.field_extractors@[k].source(), row@),
                        )
                    },
                forall|k: int|
                    i <= k < len ==> #[trigger] self.field_extractors@[k]
                        == before.field_extractors@[k],
            decreases len - i,
        {
            proof {
                let index = i as int;
                assert(self.field_extractors@[index] == before.field_extractors@[index]);
                assert(before.field_extractors@[index].wf());
                assert(before.columns()[index].cells == before.field_extractors@[index].cells());
            }
            let extractor = &mut self.field_extractors[i];
            extractor.append(row);
            i += 1;
        }
        proof {
            assert(self.columns() =~= with_row(before.fields(), before.columns(), row@)) by {
                assert forall|k: int| 0 <= k < len implies self.columns()[k] == with_row(
                    before.fields(),
                    before.columns(),
                    row@,
                )[k] by {
                    assert(self.field_extractors@[k].wf());
                    assert(before.field_extractors@[k].wf());
                }
            }
        }
    }

    /// Appends a point: its cell to every column, or nothing where a column has no room left.
    pub fn append_point(&mut self, point: ScoredPoint) -> (res: Result<(), Error>)
        requires
            old(self).wf(),
            all_readable(vectors_view(point.vectors)),
        ensures
            final(self).wf(),
            final(self).schema() == old(self).schema(),
            Self::appends(*old(self), point, res, *final(self)),
    {
        let json = if self.reads_payload() {
            payload_text(&point.payload)
        } else {
            None
        };
        let row = Row {
            id: id_text(&point.id),
            json,
            vectors: build_vector_lookup(point.vectors),
        };
        proof {
            assert(reads(self.fields(), point, row@));
        }
        if self.fits(&row) {
            self.append_row(&row);
            Ok(())
        } else {
            Err(Error::ColumnOverflow)
        }
    }

    /// Finishes the columns and assembles the record batch.
    pub fn finish(self) -> (res: Result<Batch, Error>)
        requires
            self.wf(),
        ensures
            self.finishes(res),
    {
        let ghost columns = self.columns();
        let mut arrays: Vec<Column> = Vec::new();
        for extractor in it: self.field_extractors
            invariant
                it.seq() == self.field_extractors@,
                columns == self.columns(),
                arrays@.len() == it.index(),
                forall|k: int|
                    0 <= k < arrays@.len() ==> column_view(#[trigger] arrays@[k])
                        == columns[k],
        {
            arrays.push(extractor.finish());
        }
        proof {
            assert(column_views(arrays@) =~= columns);
        }
        match try_new(self.schema, arrays) {
            Ok(batch) => Ok(batch),
            Err(error) => Err(Error::Arrow(error)),
        }
    }
}

/// A builder has one column for each field of its schema, in the order of the fields. Each column
/// has the type that its field calls for, and all columns are equally long.
pub proof fn law_columns_match_fields(builder: QdrantRecordBatchBuilder)
    requires
        builder.wf(),
    ensures
        builder.columns().len() == builder.fields().len(),
        forall|i: int|
            0 <= i < builder.fields().len() ==> (#[trigger] builder.columns()[i]).data_type
                == source_type(field_source(builder.fields()[i])),
        forall|i: int, j: int|
            0 <= i < builder.fields().len() && 0 <= j < builder.fields().len() ==> (
            #[trigger] builder.columns()[i]).cells.len() == (
            #[trigger] builder.columns()[j]).cells.len(),
{
    let extractors = builder.field_extractors@;
    assert forall|i: int| 0 <= i < extractors.len() implies {
        &&& (#[trigger] builder.columns()[i]).data_type == source_type(
            field_source(builder.fields()[i]),
        )
        &&& builder.columns()[i].cells.len() == extractors[0].cells().len()
    } by {
        assert(extractors[i].wf());
    }
}

} // verus!
