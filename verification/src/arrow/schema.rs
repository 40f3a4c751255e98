//! Schema fields, as far as column building reads them.

use datafusion::arrow::datatypes::{DataType as ArrowType, Field as ArrowField, Schema, SchemaRef};
use vstd::prelude::*;

verus! {

/// An Arrow schema: handed on to the record batch as it came.
#[verifier::external_type_specification]
#[verifier::external_body]
pub struct ExSchema(Schema);

/// A field of an Arrow schema; [`plain_field`] reads it.
#[verifier::external_type_specification]
#[verifier::external_body]
pub struct ExArrowField(ArrowField);

/// The type of a column. The variants are the types that columns are built with.
pub enum DataType {
    Utf8,
    UInt32,
    Float32,
    List(Box<Field>),
    Other,
}

/// A named column of a schema, or the items of a list.
pub struct Field {
    pub name: String,
    pub data_type: DataType,
    pub nullable: bool,
    /// The number of custom metadata entries.
    pub metadata_len: usize,
}

/// A [`DataType`], as a value.
pub enum DataTypeView {
    Utf8,
    UInt32,
    Float32,
    List(Box<FieldView>),
    Other,
}

/// A [`Field`], as a value.
pub struct FieldView {
    pub name: Seq<char>,
    pub data_type: DataTypeView,
    pub nullable: bool,
    pub metadata_len: nat,
}

/// The value of a data type.
pub open spec fn type_view(data_type: DataType) -> DataTypeView
    decreases data_type,
{
    match data_type {
        DataType::Utf8 => DataTypeView::Utf8,
        DataType::UInt32 => DataTypeView::UInt32,
        DataType::Float32 => DataTypeView::Float32,
        DataType::List(item) => DataTypeView::List(Box::new(field_view(*item))),
        DataType::Other => DataTypeView::Other,
    }
}

/// The value of a field.
pub open spec fn field_view(field: Field) -> FieldView
    decreases field,
{
    FieldView {
        name: field.name@,
        data_type: type_view(field.data_type),
        nullable: field.nullable,
        metadata_len: field.metadata_len as nat,
    }
}

impl View for Field {
    type V = FieldView;

    open spec fn view(&self) -> FieldView {
        field_view(*self)
    }
}

/// What an Arrow field holds.
pub uninterp spec fn arrow_field(field: ArrowField) -> FieldView;

/// The fields of an Arrow schema, in order.
pub uninterp spec fn schema_fields(schema: Schema) -> Seq<FieldView>;

/// `Schema::fields` with the length of the result: the number of fields.
#[verifier::external_body]
fn schema_len(schema: &SchemaRef) -> (len: usize)
    ensures
        len == schema_fields(**schema).len(),
{
    schema.fields().len()
}

/// `Schema::field`, which panics on an index out of range: the field at that place of the schema.
#[verifier::external_body]
fn schema_field(schema: &SchemaRef, index: usize) -> (field: &ArrowField)
    requires
        index < schema_fields(**schema).len(),
    ensures
        arrow_field(*field) == schema_fields(**schema)[index as int],
{
    schema.field(index)
}

/// `Field::name`, `Field::data_type`, `Field::is_nullable` and `Field::metadata`: the parts of a
/// field, those of the item of a list type included.
#[verifier::external_body]
fn plain_field(field: &ArrowField) -> (plain: Field)
    ensures
        plain@ == arrow_field(*field),
{
    let data_type = match field.data_type() {
        ArrowType::Utf8 => DataType::Utf8,
        ArrowType::UInt32 => DataType::UInt32,
        ArrowType::Float32 => DataType::Float32,
        ArrowType::List(item) => DataType::List(Box::new(plain_field(item))),
        _ => DataType::Other,
    };
    Field {
        name: field.name().clone(),
        data_type,
        nullable: field.is_nullable(),
        metadata_len: field.metadata().len(),
    }
}

/// The values of fields.
pub open spec fn field_views(fields: Seq<Field>) -> Seq<FieldView> {
    Seq::new(fields.len(), |i: int| fields[i]@)
}

/// Reads the fields of a schema, in order.
pub fn read_fields(schema: &SchemaRef) -> (fields: Vec<Field>)
    ensures
        field_views(fields@) == schema_fields(**schema),
{
    let len: usize = schema_len(schema);
    let mut fields: Vec<Field> = Vec::new();
    let mut i: usize = 0;
    while i < len
        invariant
            i <= len,
            len == schema_fields(**schema).len(),
            fields@.len() == i,
            forall|k: int| 0 <= k < i ==> (#[trigger] fields@[k])@ == schema_fields(**schema)[k],
        decreases len - i,
    {
        fields.push(plain_field(schema_field(schema, i)));
        i += 1;
    }
    proof {
        assert(field_views(fields@) =~= schema_fields(**schema));
    }
    fields
}

/// Whether a field holds several vectors per row: a list of lists.
pub open spec fn is_multi_vector(field: FieldView) -> bool {
    field.data_type matches DataTypeView::List(item) && item.data_type is List
}

/// Whether `field` is a multi-vector field.
pub fn is_multi_vector_field(field: &Field) -> (multi: bool)
    ensures
        multi == is_multi_vector(field@),
{
    proof {
        reveal_with_fuel(field_view, 3);
        reveal_with_fuel(type_view, 3);
    }
    match &field.data_type {
        DataType::List(item) => match item.data_type {
            DataType::List(_) => true,
            _ => false,
        },
        _ => false,
    }
}

} // verus!
