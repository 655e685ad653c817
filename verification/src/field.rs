//! Field descriptors: the per-type accessor-table metadata.
//!
//! For each record type an external producer supplies, per field, the
//! field's name and its category. The traversal engine consumes this
//! table read-only; it never prescribes how the table was built.

use vstd::prelude::*;

verus! {

/// The category of one field of a record type.
#[derive(Debug, PartialEq)]
pub enum FieldType {
    /// An owned string.
    String,
    /// A 64-bit signed integer.
    Integer,
    /// An IEEE double-precision number.
    Float,
    /// A two-valued boolean.
    Boolean,
    /// A nested record with a field table of its own.
    StructPath,
    /// An optional wrapper around the inner category.
    Option(Box<FieldType>),
    /// An array whose elements all have the inner category.
    Vec(Box<FieldType>),
    /// An opaque value that the engine carries through but cannot
    /// recurse into.
    Unknown,
}

/// One field of a record type: its name and its category.
#[derive(Debug, PartialEq)]
pub struct FieldInfo {
    pub name: String,
    pub field_type: FieldType,
}

/// The field table of one record type, in declaration order.
#[derive(Debug, PartialEq)]
pub struct FieldsInfo {
    pub fields: Vec<FieldInfo>,
}

/// The mathematical shape of a [`FieldInfo`]. A [`FieldType`] holds no
/// owned data, so it stands for itself.
pub struct FieldInfoModel {
    pub name: Seq<char>,
    pub field_type: FieldType,
}

impl View for FieldInfo {
    type V = FieldInfoModel;

    open spec fn view(&self) -> FieldInfoModel {
        FieldInfoModel { name: self.name@, field_type: self.field_type }
    }
}

/// The descriptors that a sequence of fields stands for.
pub open spec fn fields_view(fs: Seq<FieldInfo>) -> Seq<FieldInfoModel> {
    fs.map_values(|f: FieldInfo| f@)
}

impl View for FieldsInfo {
    type V = Seq<FieldInfoModel>;

    open spec fn view(&self) -> Seq<FieldInfoModel> {
        fields_view(self.fields@)
    }
}

} // verus!
