//! The error taxonomy of path evaluation.

use vstd::prelude::*;

verus! {

/// Why resolving a path against a record failed.
#[derive(Debug, PartialEq)]
pub enum StructPathError {
    /// The path string itself did not parse; carries the parse error's
    /// message.
    InvalidPath(String),
    /// A field name absent from the record's table, or a step that
    /// tries to nest into a value that is not a record.
    FieldNotFound(String),
    /// A value without the requested shape.
    TypeMismatch { expected: String, actual: String },
    /// An index at or past the length of an array that is present.
    IndexOutOfBounds(usize),
    /// Access through a null value.
    NullValue,
    /// Functionality not yet implemented.
    NotImplemented,
}

/// The mathematical shape of a [`StructPathError`].
pub enum ErrorModel {
    InvalidPath(Seq<char>),
    FieldNotFound(Seq<char>),
    TypeMismatch { expected: Seq<char>, actual: Seq<char> },
    IndexOutOfBounds(usize),
    NullValue,
    NotImplemented,
}

impl View for StructPathError {
    type V = ErrorModel;

    open spec fn view(&self) -> ErrorModel {
        match self {
            StructPathError::InvalidPath(m) => ErrorModel::InvalidPath(m@),
            StructPathError::FieldNotFound(name) => ErrorModel::FieldNotFound(name@),
            StructPathError::TypeMismatch { expected, actual } => ErrorModel::TypeMismatch {
                expected: expected@,
                actual: actual@,
            },
            StructPathError::IndexOutOfBounds(i) => ErrorModel::IndexOutOfBounds(*i),
            StructPathError::NullValue => ErrorModel::NullValue,
            StructPathError::NotImplemented => ErrorModel::NotImplemented,
        }
    }
}

} // verus!
