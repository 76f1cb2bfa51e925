use vstd::prelude::*;

use crate::error::BridgeError;
use crate::util::copy_vec;

verus! {

/// Format code of a 64-bit signed integer column: the byte `l` of the
/// interchange format string.
pub const FORMAT_INT64: u8 = 108;

/// Format code of a variable-length string column: the byte `u` of the
/// interchange format string.
pub const FORMAT_UTF8: u8 = 117;

/// A logical column type representable in the native engine's type system.
#[derive(Clone, Copy, Debug, PartialEq, Eq, Structural)]
pub enum ColumnType {
    /// 64-bit signed integers.
    Int64,
    /// Variable-length strings, stored as bytes.
    Utf8,
}

/// One field of a native schema: name, logical type, nullability.
#[derive(Debug, Clone, PartialEq, Eq)]
pub struct Field {
    /// Field name, as the bytes of its text.
    pub name: Vec<u8>,
    /// Logical type of the column that carries this field's values.
    pub dtype: ColumnType,
    /// Whether the column may hold nulls.
    pub nullable: bool,
}

/// Mathematical value of a [`Field`].
#[verifier::ext_equal]
pub struct FieldModel {
    pub name: Seq<u8>,
    pub dtype: ColumnType,
    pub nullable: bool,
}

impl View for Field {
    type V = FieldModel;

    open spec fn view(&self) -> FieldModel {
        FieldModel { name: self.name@, dtype: self.dtype, nullable: self.nullable }
    }
}

/// An engine-native schema: an ordered list of fields, one per column.
#[derive(Debug, Clone, PartialEq, Eq)]
pub struct Schema {
    pub fields: Vec<Field>,
}

impl View for Schema {
    type V = Seq<FieldModel>;

    open spec fn view(&self) -> Seq<FieldModel> {
        self.fields@.map_values(|f: Field| f@)
    }
}

/// The boundary form of one schema field: the field's entry in a
/// self-describing descriptor structure, already copied into owned memory.
/// The logical type is carried as an interchange format string.
#[derive(Debug, Clone, PartialEq, Eq)]
pub struct FieldDescriptor {
    /// Interchange format string naming the logical type.
    pub format: Vec<u8>,
    /// Field name, as the bytes of its text.
    pub name: Vec<u8>,
    /// Whether the nullability flag is set.
    pub nullable: bool,
}

/// Mathematical value of a [`FieldDescriptor`].
#[verifier::ext_equal]
pub struct FieldDescriptorModel {
    pub format: Seq<u8>,
    pub name: Seq<u8>,
    pub nullable: bool,
}

impl View for FieldDescriptor {
    type V = FieldDescriptorModel;

    open spec fn view(&self) -> FieldDescriptorModel {
        FieldDescriptorModel { format: self.format@, name: self.name@, nullable: self.nullable }
    }
}

/// The boundary form of a whole schema: one descriptor per field, in column
/// order.
#[derive(Debug, Clone, PartialEq, Eq)]
pub struct SchemaDescriptor {
    pub fields: Vec<FieldDescriptor>,
}

impl View for SchemaDescriptor {
    type V = Seq<FieldDescriptorModel>;

    open spec fn view(&self) -> Seq<FieldDescriptorModel> {
        self.fields@.map_values(|f: FieldDescriptor| f@)
    }
}

/// The format string that encodes a logical type.
pub open spec fn spec_format_of(t: ColumnType) -> Seq<u8> {
    match t {
        ColumnType::Int64 => seq![FORMAT_INT64],
        ColumnType::Utf8 => seq![FORMAT_UTF8],
    }
}

/// The logical type named by a format string, if the native type system can
/// represent it.
pub open spec fn spec_parse_format(s: Seq<u8>) -> Option<ColumnType> {
    if s.len() == 1 && s[0] == FORMAT_INT64 {
        Some(ColumnType::Int64)
    } else if s.len() == 1 && s[0] == FORMAT_UTF8 {
        Some(ColumnType::Utf8)
    } else {
        None
    }
}

/// Decoding one boundary field descriptor into a native field.
pub open spec fn spec_decode_field(d: FieldDescriptorModel) -> Option<FieldModel> {
    match spec_parse_format(d.format) {
        Some(t) => Some(FieldModel { name: d.name, dtype: t, nullable: d.nullable }),
        None => None,
    }
}

/// Encoding one native field into its boundary descriptor.
pub open spec fn spec_encode_field(f: FieldModel) -> FieldDescriptorModel {
    FieldDescriptorModel { format: spec_format_of(f.dtype), name: f.name, nullable: f.nullable }
}

/// Encoding is inverted exactly by decoding: the codec loses nothing.
pub proof fn lemma_field_codec_round_trip(f: FieldModel)
    ensures
        spec_decode_field(spec_encode_field(f)) == Some(f),
{
    assert(spec_decode_field(spec_encode_field(f)) == Some(f)) by {
        assert(spec_format_of(f.dtype).len() == 1);
    }
}

/// Decodes one boundary field descriptor, rejecting format strings outside
/// the native type system.
pub fn decode_field(d: &FieldDescriptor) -> (r: Result<Field, BridgeError>)
    ensures
        match r {
            Ok(f) => spec_decode_field(d@) == Some(f@),
            Err(e) => e == BridgeError::UnsupportedType && spec_decode_field(d@) is None,
        },
{
    if d.format.len() == 1 && d.format[0] == FORMAT_INT64 {
        Ok(Field { name: copy_vec(&d.name), dtype: ColumnType::Int64, nullable: d.nullable })
    } else if d.format.len() == 1 && d.format[0] == FORMAT_UTF8 {
        Ok(Field { name: copy_vec(&d.name), dtype: ColumnType::Utf8, nullable: d.nullable })
    } else {
        Err(BridgeError::UnsupportedType)
    }
}

/// Decodes a whole boundary schema descriptor into a native schema.
/// Fails with `UnsupportedType` as soon as one field's logical type is not
/// representable.
pub fn decode_schema(sd: &SchemaDescriptor) -> (r: Result<Schema, BridgeError>)
    ensures
        match r {
            Ok(s) => {
                &&& s@.len() == sd@.len()
                &&& forall|i: int|
                    0 <= i < sd@.len() ==> spec_decode_field(sd@[i]) == Some(#[trigger] s@[i])
            },
            Err(e) => {
                &&& e == BridgeError::UnsupportedType
                &&& exists|i: int| 0 <= i < sd@.len() && spec_decode_field(#[trigger] sd@[i]) is None
            },
        },
{
    let mut fields: Vec<Field> = Vec::new();
    let mut i: usize = 0;
    while i < sd.fields.len()
        invariant
            i <= sd.fields@.len(),
            fields@.len() == i,
            forall|j: int|
                0 <= j < i ==> spec_decode_field(sd@[j]) == Some(#[trigger] fields@[j]@),
        decreases sd.fields@.len() - i,
    {
        match decode_field(&sd.fields[i]) {
            Ok(f) => fields.push(f),
            Err(e) => {
                proof {
                    assert(sd@[i as int] == sd.fields@[i as int]@);
                    assert(spec_decode_field(sd@[i as int]) is None);
                }
                return Err(e);
            },
        }
        i = i + 1;
    }
    let s = Schema { fields };
    Ok(s)
}

/// Copies one field.
pub fn copy_field(f: &Field) -> (r: Field)
    ensures
        r@ == f@,
{
    Field { name: copy_vec(&f.name), dtype: f.dtype, nullable: f.nullable }
}

/// Copies a whole schema.
pub fn copy_schema(s: &Schema) -> (r: Schema)
    ensures
        r@ == s@,
{
    let mut fields: Vec<Field> = Vec::new();
    let mut i: usize = 0;
    while i < s.fields.len()
        invariant
            i <= s.fields@.len(),
            fields@.len() == i,
            forall|j: int| 0 <= j < i ==> #[trigger] fields@[j]@ == s.fields@[j]@,
        decreases s.fields@.len() - i,
    {
        fields.push(copy_field(&s.fields[i]));
        i = i + 1;
    }
    let r = Schema { fields };
    proof {
        assert(r@ =~= s@);
    }
    r
}

/// Reports whether two native schemas agree field for field: same names,
/// same logical types, same nullability, in the same order.
pub fn schema_eq(a: &Schema, b: &Schema) -> (r: bool)
    ensures
        r == (a@ == b@),
{
    if a.fields.len() != b.fields.len() {
        return false;
    }
    let mut i: usize = 0;
    while i < a.fields.len()
        invariant
            i <= a.fields@.len(),
            a@.len() == b@.len(),
            a.fields@.len() == a@.len(),
            forall|j: int| 0 <= j < i ==> #[trigger] a@[j] == b@[j],
        decreases a.fields@.len() - i,
    {
        let fa = &a.fields[i];
        let fb = &b.fields[i];
        let same = fa.dtype == fb.dtype && fa.nullable == fb.nullable && crate::util::bytes_eq(
            &fa.name,
            &fb.name,
        );
        proof {
            assert(a@[i as int] == a.fields@[i as int]@);
            assert(b@[i as int] == b.fields@[i as int]@);
        }
        if !same {
            proof {
                assert(a@[i as int] != b@[i as int]);
                assert(a@ != b@) by {
                    if a@ == b@ {
                        assert(a@[i as int] == b@[i as int]);
                    }
                }
            }
            return false;
        }
        proof {
            assert(a@[i as int] =~= b@[i as int]);
        }
        i = i + 1;
    }
    proof {
        assert(a@ =~= b@);
    }
    true
}

/// Encodes one native field into a boundary field descriptor.
pub fn encode_field(f: &Field) -> (r: FieldDescriptor)
    ensures
        r@ == spec_encode_field(f@),
        spec_decode_field(r@) == Some(f@),
{
    let mut format: Vec<u8> = Vec::new();
    match f.dtype {
        ColumnType::Int64 => format.push(FORMAT_INT64),
        ColumnType::Utf8 => format.push(FORMAT_UTF8),
    }
    let r = FieldDescriptor { format, name: copy_vec(&f.name), nullable: f.nullable };
    proof {
        assert(r@.format =~= spec_format_of(f@.dtype));
        assert(r@ =~= spec_encode_field(f@));
        lemma_field_codec_round_trip(f@);
    }
    r
}

/// Encodes a whole native schema into a boundary schema descriptor, one
/// field descriptor per column, in column order.
pub fn encode_schema(s: &Schema) -> (r: SchemaDescriptor)
    ensures
        r@.len() == s@.len(),
        forall|i: int| 0 <= i < s@.len() ==> #[trigger] r@[i] == spec_encode_field(s@[i]),
        forall|i: int| 0 <= i < s@.len() ==> spec_decode_field(#[trigger] r@[i]) == Some(s@[i]),
{
    let mut fields: Vec<FieldDescriptor> = Vec::new();
    let mut i: usize = 0;
    while i < s.fields.len()
        invariant
            i <= s.fields@.len(),
            fields@.len() == i,
            forall|j: int| 0 <= j < i ==> #[trigger] fields@[j]@ == spec_encode_field(s@[j]),
            forall|j: int| 0 <= j < i ==> spec_decode_field(#[trigger] fields@[j]@) == Some(s@[j]),
        decreases s.fields@.len() - i,
    {
        let fd = encode_field(&s.fields[i]);
        fields.push(fd);
        i = i + 1;
    }
    SchemaDescriptor { fields }
}

} // verus!
