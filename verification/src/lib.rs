//! Read values out of nested, schema-described records with runtime
//! string paths such as `parent[0].name`.
//!
//! The crate has three parts: a path parser that turns a string into a
//! sequence of access steps, a type-erased value representation for the
//! results, and a traversal engine that walks a parsed path against a
//! record and its field table, reproducing exact absence, not-found and
//! out-of-bounds semantics at every step.

mod engine;
mod error;
mod field;
mod path;
mod value;

pub use engine::{
    field_index, field_index_from, lemma_absent_short_circuit, result_view, spec_final_index,
    spec_get, spec_nested_element,
};
pub use error::{ErrorModel, StructPathError};
pub use field::{fields_view, FieldInfo, FieldInfoModel, FieldType, FieldsInfo};
pub use path::{
    all_digits, digits_val, lemma_parse_deterministic, lemma_parse_nonempty,
    lemma_scan_err_propagates, parse_error_message, parse_model, scan, scan_char, scan_finish,
    scan_init, spec_digit_val, spec_is_digit, spec_is_whitespace, step_name, steps_view,
    token_value, ParseErrorModel, Path, PathComponent, PathParseError, ScanState, StepModel,
};
pub use value::{
    field_type_name, first_mismatch_from, lemma_lift_lower_roundtrip, lemma_values_view_index,
    lemma_values_view_len, lemma_values_view_push, lemma_view_shape, record_conforms,
    record_error_model, value_category_name, value_conforms, value_view, values_view, Record,
    RecordModel, Value, ValueModel,
};
