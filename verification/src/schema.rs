//! Memory-layout schemas: fixed-layout record descriptions for the data
//! that backs buffer resources and the push-constant block.
//!
//! Fields are packed sequentially in declaration order, each field's
//! storage size given by the scalar-shape table; no alignment padding is
//! inserted. This is deliberately simplified and not GPU-alignment
//! correct.

use vstd::prelude::*;

verus! {

/// A scalar type tag of a buffer field, each mapping to a fixed-size
/// little-endian float array or matrix shape.
#[derive(Clone, Copy, Debug, PartialEq, Eq, Structural)]
pub enum ScalarType {
    Float,
    Vec2,
    Vec3,
    Vec4,
    Mat2,
    Mat3,
    Mat4,
}

/// Storage size in bytes of one scalar shape: four bytes per float
/// component.
pub open spec fn spec_scalar_size(t: ScalarType) -> int {
    match t {
        ScalarType::Float => 4,
        ScalarType::Vec2 => 8,
        ScalarType::Vec3 => 12,
        ScalarType::Vec4 => 16,
        ScalarType::Mat2 => 16,
        ScalarType::Mat3 => 36,
        ScalarType::Mat4 => 64,
    }
}

impl ScalarType {
    /// Storage size in bytes of this shape.
    pub fn byte_size(&self) -> (n: usize)
        ensures
            n as int == spec_scalar_size(*self),
    {
        match *self {
            ScalarType::Float => 4,
            ScalarType::Vec2 => 8,
            ScalarType::Vec3 => 12,
            ScalarType::Vec4 => 16,
            ScalarType::Mat2 => 16,
            ScalarType::Mat3 => 36,
            ScalarType::Mat4 => 64,
        }
    }
}

/// The scalar shape named by a type tag, if the tag is in the table.
pub open spec fn spec_scalar_of(tag: Seq<char>) -> Option<ScalarType> {
    if tag == "float"@ {
        Some(ScalarType::Float)
    } else if tag == "vec2"@ {
        Some(ScalarType::Vec2)
    } else if tag == "vec3"@ {
        Some(ScalarType::Vec3)
    } else if tag == "vec4"@ {
        Some(ScalarType::Vec4)
    } else if tag == "mat2"@ {
        Some(ScalarType::Mat2)
    } else if tag == "mat3"@ {
        Some(ScalarType::Mat3)
    } else if tag == "mat4"@ {
        Some(ScalarType::Mat4)
    } else {
        None
    }
}

/// Reads a scalar type tag.
pub fn scalar_of(tag: &String) -> (r: Option<ScalarType>)
    ensures
        r == spec_scalar_of(tag@),
{
    if crate::token::str_is(tag, "float") {
        Some(ScalarType::Float)
    } else if crate::token::str_is(tag, "vec2") {
        Some(ScalarType::Vec2)
    } else if crate::token::str_is(tag, "vec3") {
        Some(ScalarType::Vec3)
    } else if crate::token::str_is(tag, "vec4") {
        Some(ScalarType::Vec4)
    } else if crate::token::str_is(tag, "mat2") {
        Some(ScalarType::Mat2)
    } else if crate::token::str_is(tag, "mat3") {
        Some(ScalarType::Mat3)
    } else if crate::token::str_is(tag, "mat4") {
        Some(ScalarType::Mat4)
    } else {
        None
    }
}

/// The shape of one schema field: a scalar of the table, or a plain
/// array of four-byte float components.
#[derive(Clone, Copy, Debug, PartialEq, Eq, Structural)]
pub enum FieldShape {
    Scalar(ScalarType),
    FloatArray(usize),
}

/// One field of a fixed-layout record: its name, shape, byte offset
/// relative to the record start, and storage size in bytes.
#[derive(Clone, Debug, PartialEq, Eq)]
pub struct FieldSchema {
    pub name: String,
    pub shape: FieldShape,
    pub offset: usize,
    pub size: usize,
}

/// The mathematical value of a [`FieldSchema`].
pub struct FieldSchemaV {
    pub name: Seq<char>,
    pub shape: FieldShape,
    pub offset: int,
    pub size: int,
}

impl View for FieldSchema {
    type V = FieldSchemaV;

    open spec fn view(&self) -> FieldSchemaV {
        FieldSchemaV {
            name: self.name@,
            shape: self.shape,
            offset: self.offset as int,
            size: self.size as int,
        }
    }
}

/// The sequence of field values held by a field vector.
pub open spec fn field_seq(fields: &Vec<FieldSchema>) -> Seq<FieldSchemaV> {
    fields@.map_values(|f: FieldSchema| f@)
}

/// A fixed-layout record type: an ordered list of packed fields.
#[derive(Clone, Debug, PartialEq, Eq)]
pub struct RecordSchema {
    pub name: String,
    pub fields: Vec<FieldSchema>,
}

/// The mathematical value of a [`RecordSchema`].
pub struct RecordSchemaV {
    pub name: Seq<char>,
    pub fields: Seq<FieldSchemaV>,
}

impl View for RecordSchema {
    type V = RecordSchemaV;

    open spec fn view(&self) -> RecordSchemaV {
        RecordSchemaV { name: self.name@, fields: self.fields@.map_values(|f: FieldSchema| f@) }
    }
}

/// The sequence of record values held by a record vector.
pub open spec fn schema_seq(schemas: &Vec<RecordSchema>) -> Seq<RecordSchemaV> {
    schemas@.map_values(|s: RecordSchema| s@)
}

} // verus!
