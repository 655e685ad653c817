//! The type-erased value representation and the records it nests.
//!
//! A [`Value`] is a tagged union over the categories a field can have:
//! four scalars, a nested record, a homogeneous array, and an optional
//! wrapper that is present or absent. A [`Record`] carries its own
//! field table together with one lifted value per field; every record
//! that exists conforms to its table, which is the type's invariant.

use crate::error::{ErrorModel, StructPathError};
use crate::field::{fields_view, FieldInfo, FieldInfoModel, FieldType, FieldsInfo};
use vstd::prelude::*;

verus! {

/// A type-erased result value.
#[derive(Debug, PartialEq)]
pub enum Value {
    /// An owned string.
    String(String),
    /// A 64-bit signed integer.
    Integer(i64),
    /// An IEEE double-precision number, carried as its raw bit pattern
    /// and passed through unchanged; NaN and infinities get no special
    /// casing.
    Float(u64),
    /// A two-valued boolean.
    Boolean(bool),
    /// A nested record.
    Record(Box<Record>),
    /// An order-preserving array of element values of one element kind.
    Array(Vec<Value>),
    /// An optional wrapper: present with an inner value, or absent.
    Optional(Option<Box<Value>>),
}

/// A record instance: a field table, and for each of its fields the
/// lifted value of that field, in table order.
#[derive(Debug, PartialEq)]
pub struct Record {
    pub(crate) info: FieldsInfo,
    pub(crate) values: Vec<Value>,
}

/// The mathematical shape of a [`Value`].
pub enum ValueModel {
    String(Seq<char>),
    Integer(i64),
    Float(u64),
    Boolean(bool),
    Record(RecordModel),
    Array(Seq<ValueModel>),
    Optional(Option<Box<ValueModel>>),
}

/// The mathematical shape of a [`Record`].
pub struct RecordModel {
    pub info: Seq<FieldInfoModel>,
    pub values: Seq<ValueModel>,
}

/// The model that a value stands for.
pub open spec fn value_view(v: Value) -> ValueModel
    decreases v,
{
    match v {
        Value::String(s) => ValueModel::String(s@),
        Value::Integer(i) => ValueModel::Integer(i),
        Value::Float(bits) => ValueModel::Float(bits),
        Value::Boolean(b) => ValueModel::Boolean(b),
        Value::Record(r) => ValueModel::Record(record_view(*r)),
        Value::Array(elems) => ValueModel::Array(values_view(elems@)),
        Value::Optional(o) => ValueModel::Optional(
            match o {
                Option::None => Option::None,
                Option::Some(b) => Option::Some(Box::new(value_view(*b))),
            },
        ),
    }
}

/// The models that a sequence of values stands for.
pub open spec fn values_view(vs: Seq<Value>) -> Seq<ValueModel>
    decreases vs,
{
    if vs.len() == 0 {
        Seq::empty()
    } else {
        values_view(vs.drop_last()).push(value_view(vs.last()))
    }
}

/// The model that a record stands for.
pub open(crate) spec fn record_view(r: Record) -> RecordModel
    decreases r,
{
    RecordModel { info: fields_view(r.info.fields@), values: values_view(r.values@) }
}

impl View for Value {
    type V = ValueModel;

    open spec fn view(&self) -> ValueModel {
        value_view(*self)
    }
}

impl View for Record {
    type V = RecordModel;

    open spec fn view(&self) -> RecordModel {
        record_view(*self)
    }
}


/// A value's model has the constructor of the value itself.
pub proof fn lemma_view_shape(v: Value)
    ensures
        (value_view(v) is String) <==> (v is String),
        (value_view(v) is Integer) <==> (v is Integer),
        (value_view(v) is Float) <==> (v is Float),
        (value_view(v) is Boolean) <==> (v is Boolean),
        (value_view(v) is Record) <==> (v is Record),
        (value_view(v) is Array) <==> (v is Array),
        (value_view(v) is Optional) <==> (v is Optional),
{
    match v {
        Value::String(_) => {},
        Value::Integer(_) => {},
        Value::Float(_) => {},
        Value::Boolean(_) => {},
        Value::Record(_) => {},
        Value::Array(_) => {},
        Value::Optional(_) => {},
    }
}

/// `values_view` keeps the length.
pub proof fn lemma_values_view_len(vs: Seq<Value>)
    ensures
        values_view(vs).len() == vs.len(),
    decreases vs,
{
    if vs.len() > 0 {
        lemma_values_view_len(vs.drop_last());
    }
}

/// `values_view` maps each value to its model, index by index.
pub proof fn lemma_values_view_index(vs: Seq<Value>, i: int)
    requires
        0 <= i < vs.len(),
    ensures
        values_view(vs).len() == vs.len(),
        values_view(vs)[i] == value_view(vs[i]),
    decreases vs,
{
    lemma_values_view_len(vs);
    if vs.len() > 0 && i < vs.len() - 1 {
        lemma_values_view_index(vs.drop_last(), i);
    }
}

/// Appending a value appends its model.
pub proof fn lemma_values_view_push(vs: Seq<Value>, v: Value)
    ensures
        values_view(vs.push(v)) == values_view(vs).push(value_view(v)),
    decreases vs,
{
    assert(vs.push(v).drop_last() =~= vs);
    assert(vs.push(v).last() == v);
}

/// Whether the value `v` has exactly the shape that the category `t`
/// declares. A nested record must in turn conform to its own table.
pub open spec fn value_conforms(v: ValueModel, t: FieldType) -> bool
    decreases v,
{
    match t {
        FieldType::String => v is String,
        FieldType::Integer => v is Integer,
        FieldType::Float => v is Float,
        FieldType::Boolean => v is Boolean,
        FieldType::StructPath => v matches ValueModel::Record(rm) && record_conforms(rm),
        FieldType::Option(inner) => v matches ValueModel::Optional(o) && (o matches Some(b)
            ==> value_conforms(*b, *inner)),
        FieldType::Vec(inner) => v matches ValueModel::Array(elems) && (forall|i: int|
            0 <= i < elems.len() ==> value_conforms(#[trigger] elems[i], *inner)),
        FieldType::Unknown => v matches ValueModel::Record(rm) && record_conforms(rm),
    }
}

/// Whether a record's values line up with its field table: one value
/// per field, each of the declared shape.
pub open spec fn record_conforms(r: RecordModel) -> bool
    decreases r,
{
    &&& r.values.len() == r.info.len()
    &&& forall|i: int|
        0 <= i < r.values.len() ==> value_conforms(
            #[trigger] r.values[i],
            r.info[i].field_type,
        )
}

/// The name of the category that `t` declares.
pub open spec fn field_type_name(t: FieldType) -> Seq<char> {
    match t {
        FieldType::String => "String"@,
        FieldType::Integer => "Integer"@,
        FieldType::Float => "Float"@,
        FieldType::Boolean => "Boolean"@,
        FieldType::StructPath => "StructPath"@,
        FieldType::Option(_) => "Option"@,
        FieldType::Vec(_) => "Vec"@,
        FieldType::Unknown => "Unknown"@,
    }
}

/// The name of the category that `v` belongs to.
pub open spec fn value_category_name(v: ValueModel) -> Seq<char> {
    match v {
        ValueModel::String(_) => "String"@,
        ValueModel::Integer(_) => "Integer"@,
        ValueModel::Float(_) => "Float"@,
        ValueModel::Boolean(_) => "Boolean"@,
        ValueModel::Record(_) => "Record"@,
        ValueModel::Array(_) => "Array"@,
        ValueModel::Optional(_) => "Optional"@,
    }
}

impl FieldType {
    /// The name of the category this descriptor declares.
    pub fn category_name(&self) -> (r: &str)
        ensures
            r@ == field_type_name(*self),
    {
        match self {
            FieldType::String => "String",
            FieldType::Integer => "Integer",
            FieldType::Float => "Float",
            FieldType::Boolean => "Boolean",
            FieldType::StructPath => "StructPath",
            FieldType::Option(_) => "Option",
            FieldType::Vec(_) => "Vec",
            FieldType::Unknown => "Unknown",
        }
    }
}

impl Value {
    /// The name of the category this value belongs to.
    pub fn category_name(&self) -> (r: &str)
        ensures
            r@ == value_category_name(self@),
    {
        match self {
            Value::String(_) => "String",
            Value::Integer(_) => "Integer",
            Value::Float(_) => "Float",
            Value::Boolean(_) => "Boolean",
            Value::Record(_) => "Record",
            Value::Array(_) => "Array",
            Value::Optional(_) => "Optional",
        }
    }
}


/// The least index at or past `i` whose value does not have its
/// field's declared shape, or the length when all do.
pub open spec fn first_mismatch_from(
    info: Seq<FieldInfoModel>,
    vals: Seq<ValueModel>,
    i: int,
) -> int
    decreases vals.len() - i,
{
    if i < 0 || i >= vals.len() {
        vals.len() as int
    } else if !value_conforms(vals[i], info[i].field_type) {
        i
    } else {
        first_mismatch_from(info, vals, i + 1)
    }
}

/// The error that building a record from `info` and `vals` reports when
/// they do not line up: a count mismatch, else the first value without
/// its field's declared shape.
pub open spec fn record_error_model(info: Seq<FieldInfoModel>, vals: Seq<ValueModel>) -> ErrorModel
    recommends
        !record_conforms(RecordModel { info, values: vals }),
{
    if info.len() != vals.len() {
        ErrorModel::TypeMismatch {
            expected: "one value per field"@,
            actual: "a different count"@,
        }
    } else {
        let i = first_mismatch_from(info, vals, 0);
        ErrorModel::TypeMismatch {
            expected: field_type_name(info[i].field_type),
            actual: value_category_name(vals[i]),
        }
    }
}

/// Searching for a mismatch may start past any conforming prefix.
proof fn lemma_first_mismatch_skip(info: Seq<FieldInfoModel>, vals: Seq<ValueModel>, k: int)
    requires
        0 <= k <= vals.len(),
        forall|j: int| 0 <= j < k ==> value_conforms(#[trigger] vals[j], info[j].field_type),
    ensures
        first_mismatch_from(info, vals, 0) == first_mismatch_from(info, vals, k),
    decreases k,
{
    if k > 0 {
        lemma_first_mismatch_skip(info, vals, k - 1);
    }
}

/// Runtime check that `v` has the shape `t` declares. A nested record
/// needs no walk: every record that exists conforms to its own table.
#[verifier::loop_isolation(false)]
fn check_value_conforms(v: &Value, t: &FieldType) -> (r: bool)
    ensures
        r == value_conforms(v@, *t),
    decreases *v,
{
    match t {
        FieldType::String => match v {
            Value::String(_) => true,
            _ => false,
        },
        FieldType::Integer => match v {
            Value::Integer(_) => true,
            _ => false,
        },
        FieldType::Float => match v {
            Value::Float(_) => true,
            _ => false,
        },
        FieldType::Boolean => match v {
            Value::Boolean(_) => true,
            _ => false,
        },
        FieldType::StructPath => match v {
            Value::Record(b) => {
                proof {
                    use_type_invariant(&**b);
                }
                true
            },
            _ => false,
        },
        FieldType::Option(inner) => match v {
            Value::Optional(o) => match o {
                Option::None => true,
                Option::Some(b) => check_value_conforms(&**b, &**inner),
            },
            _ => false,
        },
        FieldType::Vec(inner) => match v {
            Value::Array(elems) => {
                let n = elems.len();
                let mut j: usize = 0;
                while j < n
                    invariant
                        j <= n,
                        n == elems@.len(),
                        forall|k: int|
                            0 <= k < j ==> value_conforms(
                                #[trigger] value_view(elems@[k]),
                                **inner,
                            ),
                    decreases n - j,
                {
                    proof {
                        assert(decreases_to!(*v => *elems));
                        assert(decreases_to!(*elems => elems[j as int]));
                    }
                    if !check_value_conforms(&elems[j], &**inner) {
                        proof {
                            lemma_values_view_index(elems@, j as int);
                            assert(!value_conforms(values_view(elems@)[j as int], **inner));
                            assert(v@ matches ValueModel::Array(em) && em == values_view(elems@));
                            assert(!value_conforms(v@, *t));
                        }
                        return false;
                    }
                    j += 1;
                }
                proof {
                    lemma_values_view_len(elems@);
                    assert forall|k: int| 0 <= k < values_view(elems@).len() implies value_conforms(
                        #[trigger] values_view(elems@)[k],
                        **inner,
                    ) by {
                        lemma_values_view_index(elems@, k);
                    }
                }
                true
            },
            _ => false,
        },
        FieldType::Unknown => match v {
            Value::Record(b) => {
                proof {
                    use_type_invariant(&**b);
                }
                true
            },
            _ => false,
        },
    }
}

impl Record {
    /// Every record that exists conforms to its own field table.
    #[verifier::type_invariant]
    pub(crate) open(crate) spec fn wf(self) -> bool {
        record_conforms(self@)
    }

    /// Build a record from a field table and one lifted value per
    /// field, in table order. Succeeds exactly when the shapes line
    /// up: as many values as fields, each value of its field's
    /// declared category; otherwise reports the first mismatch.
    pub fn new(info: FieldsInfo, values: Vec<Value>) -> (r: Result<Record, StructPathError>)
        ensures
            r is Ok <==> record_conforms(
                RecordModel { info: info@, values: values_view(values@) },
            ),
            r matches Ok(rec) ==> rec@ == (RecordModel {
                info: info@,
                values: values_view(values@),
            }),
            r matches Err(e) ==> e@ == record_error_model(info@, values_view(values@)),
    {
        proof {
            lemma_values_view_len(values@);
        }
        if info.fields.len() != values.len() {
            return Err(
                StructPathError::TypeMismatch {
                    expected: String::from_str("one value per field"),
                    actual: String::from_str("a different count"),
                },
            );
        }
        let n = values.len();
        let mut i: usize = 0;
        while i < n
            invariant
                i <= n,
                n == values@.len(),
                info@.len() == values@.len(),
                info.fields@.len() == values@.len(),
                forall|k: int|
                    0 <= k < i ==> value_conforms(
                        #[trigger] value_view(values@[k]),
                        info@[k].field_type,
                    ),
            decreases n - i,
        {
            if !check_value_conforms(&values[i], &info.fields[i].field_type) {
                let expected = info.fields[i].field_type.category_name().to_owned();
                let actual = values[i].category_name().to_owned();
                proof {
                    let ghost vals = values_view(values@);
                    lemma_values_view_len(values@);
                    assert forall|j: int| 0 <= j < i implies value_conforms(
                        #[trigger] vals[j],
                        info@[j].field_type,
                    ) by {
                        lemma_values_view_index(values@, j);
                    }
                    lemma_first_mismatch_skip(info@, vals, i as int);
                    lemma_values_view_index(values@, i as int);
                    assert(first_mismatch_from(info@, vals, i as int) == i);
                }
                return Err(StructPathError::TypeMismatch { expected, actual });
            }
            i += 1;
        }
        proof {
            lemma_values_view_len(values@);
            assert forall|k: int| 0 <= k < values_view(values@).len() implies value_conforms(
                #[trigger] values_view(values@)[k],
                info@[k].field_type,
            ) by {
                lemma_values_view_index(values@, k);
            }
            assert(record_conforms(RecordModel { info: info@, values: values_view(values@) }));
        }
        let rec = Record { info, values };
        Ok(rec)
    }

    /// The record's field table.
    pub fn get_fields_info(&self) -> (r: &FieldsInfo)
        ensures
            r@ == self@.info,
    {
        &self.info
    }

    /// The record's values, one per field, in table order.
    pub fn get_values(&self) -> (r: &Vec<Value>)
        ensures
            values_view(r@) == self@.values,
    {
        &self.values
    }
}


impl ValueModel {
    /// The characters of a string-category value.
    pub open spec fn str_of(self) -> Seq<char>
        recommends
            self is String,
    {
        match self {
            ValueModel::String(s) => s,
            _ => arbitrary(),
        }
    }

    /// The integer of an integer-category value.
    pub open spec fn int_of(self) -> i64
        recommends
            self is Integer,
    {
        match self {
            ValueModel::Integer(i) => i,
            _ => arbitrary(),
        }
    }

    /// The bit pattern of a float-category value.
    pub open spec fn float_bits_of(self) -> u64
        recommends
            self is Float,
    {
        match self {
            ValueModel::Float(bits) => bits,
            _ => arbitrary(),
        }
    }

    /// The boolean of a boolean-category value.
    pub open spec fn bool_of(self) -> bool
        recommends
            self is Boolean,
    {
        match self {
            ValueModel::Boolean(b) => b,
            _ => arbitrary(),
        }
    }

    /// The record of a record-category value.
    pub open spec fn record_of(self) -> RecordModel
        recommends
            self is Record,
    {
        match self {
            ValueModel::Record(r) => r,
            _ => arbitrary(),
        }
    }

    /// The elements of an array-category value.
    pub open spec fn array_of(self) -> Seq<ValueModel>
        recommends
            self is Array,
    {
        match self {
            ValueModel::Array(elems) => elems,
            _ => arbitrary(),
        }
    }

    /// The presence and inner value of an optional-category value.
    pub open spec fn optional_of(self) -> Option<Box<ValueModel>>
        recommends
            self is Optional,
    {
        match self {
            ValueModel::Optional(o) => o,
            _ => arbitrary(),
        }
    }
}

/// Lift/lower round trip: for every category, narrowing a freshly
/// lifted value with the matching accessor returns exactly what was
/// lifted, unchanged.
pub proof fn lemma_lift_lower_roundtrip(
    s: Seq<char>,
    i: i64,
    f: u64,
    b: bool,
    r: RecordModel,
    a: Seq<ValueModel>,
    o: Option<Box<ValueModel>>,
)
    ensures
        ValueModel::String(s).str_of() == s,
        ValueModel::Integer(i).int_of() == i,
        ValueModel::Float(f).float_bits_of() == f,
        ValueModel::Boolean(b).bool_of() == b,
        ValueModel::Record(r).record_of() == r,
        ValueModel::Array(a).array_of() == a,
        ValueModel::Optional(o).optional_of() == o,
{
}

impl Value {
    /// The inner value of a present optional. Callers must know the
    /// value is a present optional; anything else is a logic fault at
    /// the call site.
    pub fn unwrap(&self) -> (r: &Value)
        requires
            self@ matches ValueModel::Optional(Some(_)),
        ensures
            self@.optional_of() matches Some(b) && r@ == *b,
    {
        match self {
            Value::Optional(Some(v)) => &**v,
            _ => unreached(),
        }
    }

    /// The borrowed characters of a string-category value.
    pub fn as_str(&self) -> (r: &str)
        requires
            self@ is String,
        ensures
            r@ == self@.str_of(),
    {
        match self {
            Value::String(s) => s.as_str(),
            _ => unreached(),
        }
    }

    /// An owned copy of a string-category value.
    pub fn as_string(&self) -> (r: String)
        requires
            self@ is String,
        ensures
            r@ == self@.str_of(),
    {
        match self {
            Value::String(s) => s.clone(),
            _ => unreached(),
        }
    }

    /// The integer of an integer-category value.
    pub fn as_i64(&self) -> (r: i64)
        requires
            self@ is Integer,
        ensures
            r == self@.int_of(),
    {
        match self {
            Value::Integer(i) => *i,
            _ => unreached(),
        }
    }

    /// The bit pattern of a float-category value, exactly as lifted.
    pub fn as_float_bits(&self) -> (r: u64)
        requires
            self@ is Float,
        ensures
            r == self@.float_bits_of(),
    {
        match self {
            Value::Float(bits) => *bits,
            _ => unreached(),
        }
    }

    /// The boolean of a boolean-category value.
    pub fn as_bool(&self) -> (r: bool)
        requires
            self@ is Boolean,
        ensures
            r == self@.bool_of(),
    {
        match self {
            Value::Boolean(b) => *b,
            _ => unreached(),
        }
    }

    /// The nested record of a record-category value.
    pub fn as_record(&self) -> (r: &Record)
        requires
            self@ is Record,
        ensures
            r@ == self@.record_of(),
    {
        match self {
            Value::Record(b) => &**b,
            _ => unreached(),
        }
    }

    /// The elements of an array-category value.
    pub fn as_array(&self) -> (r: &Vec<Value>)
        requires
            self@ is Array,
        ensures
            values_view(r@) == self@.array_of(),
    {
        match self {
            Value::Array(elems) => elems,
            _ => unreached(),
        }
    }

    /// Turns an optional-category value into a native option,
    /// distinguishing presence from absence.
    pub fn as_option(self) -> (r: Option<Value>)
        requires
            self@ is Optional,
        ensures
            self@.optional_of() matches Some(b) ==> r matches Some(v) && v@ == *b,
            self@.optional_of() is None ==> r is None,
    {
        match self {
            Value::Optional(Some(v)) => Some(*v),
            Value::Optional(None) => None,
            _ => unreached(),
        }
    }
}

/// Deep copy of a value; the copy stands for the same model.
fn clone_value(v: &Value) -> (r: Value)
    ensures
        r@ == v@,
    decreases *v,
{
    match v {
        Value::String(s) => Value::String(s.clone()),
        Value::Integer(i) => Value::Integer(*i),
        Value::Float(bits) => Value::Float(*bits),
        Value::Boolean(b) => Value::Boolean(*b),
        Value::Record(b) => Value::Record(Box::new(clone_record(&**b))),
        Value::Array(elems) => Value::Array(clone_values(elems)),
        Value::Optional(o) => Value::Optional(
            match o {
                Option::None => Option::None,
                Option::Some(b) => Option::Some(Box::new(clone_value(&**b))),
            },
        ),
    }
}

/// Deep copy of a value sequence, element by element.
#[verifier::loop_isolation(false)]
fn clone_values(vs: &Vec<Value>) -> (r: Vec<Value>)
    ensures
        r@.len() == vs@.len(),
        values_view(r@) == values_view(vs@),
    decreases *vs,
{
    let n = vs.len();
    let mut out: Vec<Value> = Vec::new();
    let mut j: usize = 0;
    while j < n
        invariant
            j <= n,
            out@.len() == j as int,
            values_view(out@) == values_view(vs@.take(j as int)),
        decreases n - j,
    {
        proof {
            assert(decreases_to!(*vs => vs[j as int]));
        }
        let c = clone_value(&vs[j]);
        let ghost out0 = out@;
        let ghost cv = c;
        out.push(c);
        proof {
            lemma_values_view_push(out0, cv);
            assert(vs@.take(j as int + 1).drop_last() =~= vs@.take(j as int));
            assert(vs@.take(j as int + 1).last() == vs@[j as int]);
        }
        j += 1;
    }
    proof {
        assert(vs@.take(n as int) =~= vs@);
    }
    out
}

/// Copy of a field category descriptor.
fn clone_field_type(t: &FieldType) -> (r: FieldType)
    ensures
        r == *t,
    decreases *t,
{
    match t {
        FieldType::String => FieldType::String,
        FieldType::Integer => FieldType::Integer,
        FieldType::Float => FieldType::Float,
        FieldType::Boolean => FieldType::Boolean,
        FieldType::StructPath => FieldType::StructPath,
        FieldType::Option(inner) => FieldType::Option(Box::new(clone_field_type(&**inner))),
        FieldType::Vec(inner) => FieldType::Vec(Box::new(clone_field_type(&**inner))),
        FieldType::Unknown => FieldType::Unknown,
    }
}

/// Copy of a field table.
#[verifier::loop_isolation(false)]
fn clone_fields_info(fi: &FieldsInfo) -> (r: FieldsInfo)
    ensures
        r@ == fi@,
        r.fields@.len() == fi.fields@.len(),
{
    let n = fi.fields.len();
    let mut out: Vec<FieldInfo> = Vec::new();
    let mut j: usize = 0;
    while j < n
        invariant
            j <= n,
            out@.len() == j as int,
            out@ =~= fi.fields@.take(j as int),
        decreases n - j,
    {
        let f = &fi.fields[j];
        out.push(FieldInfo { name: f.name.clone(), field_type: clone_field_type(&f.field_type) });
        proof {
            assert(fi.fields@.take(j as int + 1) =~= fi.fields@.take(j as int).push(
                fi.fields@[j as int],
            ));
        }
        j += 1;
    }
    proof {
        assert(fi.fields@.take(n as int) =~= fi.fields@);
    }
    FieldsInfo { fields: out }
}

/// Deep copy of a record; the copy stands for the same model, and so
/// conforms to its table exactly as the record it was copied from.
fn clone_record(r: &Record) -> (res: Record)
    ensures
        res@ == r@,
    decreases *r,
{
    proof {
        use_type_invariant(r);
        assert(decreases_to!(*r => r.values));
    }
    let info = clone_fields_info(&r.info);
    let values = clone_values(&r.values);
    Record { info, values }
}

impl Clone for Value {
    /// Deep copy; the copy stands for the same model.
    fn clone(&self) -> (r: Self)
        ensures
            r@ == self@,
    {
        clone_value(self)
    }
}

impl Clone for Record {
    /// Deep copy; the copy stands for the same model.
    fn clone(&self) -> (r: Self)
        ensures
            r@ == self@,
    {
        clone_record(self)
    }
}

} // verus!
