//! Arrow data types and schemas, as the cuDF operators read them, and the
//! schema maps at the host/GPU boundary.
//!
//! cuDF has no string-view type: a cuDF load reads `Utf8View` columns as
//! `Utf8`, and a cuDF unload gives `Utf8` columns back as `Utf8View` so that the
//! host operators above see the types of the source schema.
use vstd::prelude::*;

verus! {

/// An Arrow data type. The variants that the cuDF operators tell apart are
/// listed; `Other` stands for any other Arrow type.
#[derive(Clone, Copy, PartialEq, Eq, Debug, Hash, Structural)]
pub enum DataType {
    Null,
    Boolean,
    Int8,
    Int16,
    Int32,
    Int64,
    UInt8,
    UInt16,
    UInt32,
    UInt64,
    Float16,
    Float32,
    Float64,
    Date32,
    Date64,
    Binary,
    LargeBinary,
    BinaryView,
    Utf8,
    LargeUtf8,
    Utf8View,
    /// 32-bit decimal with a precision and a scale.
    Decimal32(u8, i8),
    /// 64-bit decimal with a precision and a scale.
    Decimal64(u8, i8),
    /// 128-bit decimal with a precision and a scale.
    Decimal128(u8, i8),
    /// 256-bit decimal with a precision and a scale.
    Decimal256(u8, i8),
    Other,
}

/// A named column of a schema.
pub struct Field {
    pub name: String,
    pub data_type: DataType,
    pub nullable: bool,
}

impl View for Field {
    type V = (Seq<char>, DataType, bool);

    open spec fn view(&self) -> (Seq<char>, DataType, bool) {
        (self.name@, self.data_type, self.nullable)
    }
}

impl Field {
    pub fn new(name: String, data_type: DataType, nullable: bool) -> (r: Field)
        ensures
            r@ == (name@, data_type, nullable),
    {
        Field { name, data_type, nullable }
    }

    /// A copy of this field with another data type.
    pub fn with_data_type(&self, data_type: DataType) -> (r: Field)
        ensures
            r@ == (self@.0, data_type, self@.2),
    {
        Field { name: self.name.clone(), data_type, nullable: self.nullable }
    }
}

/// The fields of a record batch, in order.
pub struct Schema {
    pub fields: Vec<Field>,
}

impl View for Schema {
    type V = Seq<(Seq<char>, DataType, bool)>;

    open spec fn view(&self) -> Seq<(Seq<char>, DataType, bool)> {
        self.fields@.map_values(|f: Field| f@)
    }
}

/// A field type with `from` replaced by `to`.
pub open spec fn retype(t: DataType, from: DataType, to: DataType) -> DataType {
    if t == from {
        to
    } else {
        t
    }
}

/// Each field with its type `from` replaced by `to`, names and nullability kept.
pub open spec fn retype_fields(
    s: Seq<(Seq<char>, DataType, bool)>,
    from: DataType,
    to: DataType,
) -> Seq<(Seq<char>, DataType, bool)> {
    Seq::new(s.len(), |i: int| (s[i].0, retype(s[i].1, from, to), s[i].2))
}

/// The schema a cuDF load gives: every `Utf8View` field becomes `Utf8`.
pub open spec fn load_schema(s: Seq<(Seq<char>, DataType, bool)>) -> Seq<(Seq<char>, DataType, bool)> {
    retype_fields(s, DataType::Utf8View, DataType::Utf8)
}

/// The schema a cuDF unload gives: every `Utf8` field becomes `Utf8View`.
pub open spec fn unload_schema(s: Seq<(Seq<char>, DataType, bool)>) -> Seq<(Seq<char>, DataType, bool)> {
    retype_fields(s, DataType::Utf8, DataType::Utf8View)
}

fn map_schema(schema: &Schema, from: DataType, to: DataType) -> (r: Schema)
    ensures
        r@ == retype_fields(schema@, from, to),
{
    let mut fields: Vec<Field> = Vec::new();
    let mut i: usize = 0;
    while i < schema.fields.len()
        invariant
            i <= schema.fields.len(),
            fields.len() == i,
            forall|j: int|
                0 <= j < i ==> (#[trigger] fields@[j])@ == (
                    schema.fields@[j]@.0,
                    retype(schema.fields@[j]@.1, from, to),
                    schema.fields@[j]@.2,
                ),
        decreases schema.fields.len() - i,
    {
        let field = &schema.fields[i];
        let t = if field.data_type == from { to } else { field.data_type };
        fields.push(field.with_data_type(t));
        i = i + 1;
    }
    let r = Schema { fields };
    assert(r@ =~= retype_fields(schema@, from, to));
    r
}

/// Maps an Arrow schema to cuDF-compatible types (`Utf8View -> Utf8`).
pub fn cudf_schema_compatibility_map(schema: &Schema) -> (r: Schema)
    ensures
        r@ == load_schema(schema@),
{
    map_schema(schema, DataType::Utf8View, DataType::Utf8)
}

/// Partial reverse of [`cudf_schema_compatibility_map`]: restores `Utf8 -> Utf8View` so
/// downstream CPU nodes see the types they expect from the parquet schema they read.
///
/// Only Utf8View is reversed, decimal precision normalization is not because the declared
/// precision is not recoverable.
pub fn cudf_unload_schema_map(schema: &Schema) -> (r: Schema)
    ensures
        r@ == unload_schema(schema@),
{
    map_schema(schema, DataType::Utf8, DataType::Utf8View)
}

/// Whether some field of the schema has this type.
pub open spec fn has_field_of_type(s: Seq<(Seq<char>, DataType, bool)>, t: DataType) -> bool {
    exists|i: int| 0 <= i < s.len() && #[trigger] s[i].1 == t
}

/// The schema maps keep every field's name and nullability and the number of
/// fields; a loaded schema has no `Utf8View` field and an unloaded one no
/// `Utf8` field; loading twice is loading once.
pub proof fn lemma_schema_maps_shape(s: Seq<(Seq<char>, DataType, bool)>)
    ensures
        load_schema(s).len() == s.len(),
        unload_schema(s).len() == s.len(),
        forall|i: int|
            0 <= i < s.len() ==> (#[trigger] load_schema(s)[i]).0 == s[i].0 && load_schema(s)[i].2
                == s[i].2,
        forall|i: int|
            0 <= i < s.len() ==> (#[trigger] unload_schema(s)[i]).0 == s[i].0 && unload_schema(
                s,
            )[i].2 == s[i].2,
        !has_field_of_type(load_schema(s), DataType::Utf8View),
        !has_field_of_type(unload_schema(s), DataType::Utf8),
        load_schema(load_schema(s)) == load_schema(s),
{
    assert(load_schema(load_schema(s)) =~= load_schema(s));
}

/// Unloading gives back what was loaded: a schema without plain `Utf8` fields
/// comes back unchanged from a cuDF load and unload, and loading an unloaded
/// schema gives the loaded schema again.
pub proof fn lemma_unload_reverses_load(s: Seq<(Seq<char>, DataType, bool)>)
    ensures
        !has_field_of_type(s, DataType::Utf8) ==> unload_schema(load_schema(s)) == s,
        load_schema(unload_schema(load_schema(s))) == load_schema(s),
{
    if !has_field_of_type(s, DataType::Utf8) {
        assert forall|i: int| 0 <= i < s.len() implies #[trigger] unload_schema(load_schema(s))[i]
            == s[i] by {
            assert(s[i].1 != DataType::Utf8);
        }
        assert(unload_schema(load_schema(s)) =~= s);
    }
    assert(load_schema(unload_schema(load_schema(s))) =~= load_schema(s));
}

/// The type each column of a GPU record batch gets when the batch is built
/// against a schema: a cuDF column whose type differs from its field's takes
/// the field's type (cuDF normalizes decimal precision, which the schema
/// restores); any other column keeps its type. Columns and fields are paired in
/// order, as far as both go; `columns[i]` is a column's type and whether it is a
/// cuDF column.
pub fn record_batch_column_types(columns: &Vec<(DataType, bool)>, schema: &Schema) -> (r: Vec<DataType>)
    ensures
        r.len() == if columns.len() < schema.fields.len() {
            columns.len()
        } else {
            schema.fields.len()
        },
        forall|i: int|
            0 <= i < r.len() ==> #[trigger] r@[i] == if columns@[i].0 != schema@[i].1 && columns@[i].1 {
                schema@[i].1
            } else {
                columns@[i].0
            },
{
    let mut r: Vec<DataType> = Vec::new();
    let mut i: usize = 0;
    while i < columns.len() && i < schema.fields.len()
        invariant
            i <= columns.len(),
            i <= schema.fields.len(),
            r.len() == i,
            forall|j: int|
                0 <= j < i ==> #[trigger] r@[j] == if columns@[j].0 != schema@[j].1 && columns@[j].1 {
                    schema@[j].1
                } else {
                    columns@[j].0
                },
        decreases columns.len() - i,
    {
        let (t, on_gpu) = columns[i];
        let field_type = schema.fields[i].data_type;
        if t != field_type && on_gpu {
            r.push(field_type);
        } else {
            r.push(t);
        }
        i = i + 1;
    }
    r
}

} // verus!
