//! The traversal engine: resolving a parsed path against a record.
//!
//! Traversal consumes the steps left to right. A final field step
//! yields the stored value as it stands, optional wrapper included; a
//! final index step reaches into an array field. A step with more
//! steps behind it must name a nested record — directly, through an
//! array index, or through an optional wrapper around either — and
//! recursion continues in that record's own table. An absent optional
//! anywhere along the way short-circuits the whole remaining path to
//! `Optional(absent)`: absence always wins over any later error, an
//! out-of-bounds index included. The whole algorithm is pinned down by
//! [`spec_get`]; the executable methods return exactly what it says.

use crate::error::{ErrorModel, StructPathError};
use crate::field::{FieldInfoModel, FieldType};
use crate::path::{
    parse_error_message, parse_model, step_name, Path, PathComponent, StepModel,
};
use crate::value::{
    lemma_values_view_index, lemma_values_view_len, lemma_view_shape, record_conforms, value_view,
    values_view, Record, RecordModel, Value, ValueModel,
};
use vstd::prelude::*;

verus! {

/// The least index at or past `i` of a field called `name`, or the
/// table's length when no field has that name.
pub open spec fn field_index_from(info: Seq<FieldInfoModel>, name: Seq<char>, i: int) -> int
    decreases info.len() - i,
{
    if i < 0 || i >= info.len() {
        info.len() as int
    } else if info[i].name == name {
        i
    } else {
        field_index_from(info, name, i + 1)
    }
}

/// The least index of a field called `name`, or the table's length
/// when no field has that name. Lookup always takes the first match.
pub open spec fn field_index(info: Seq<FieldInfoModel>, name: Seq<char>) -> int {
    field_index_from(info, name, 0)
}

/// Lookup may start past any prefix without the name.
proof fn lemma_field_index_skip(info: Seq<FieldInfoModel>, name: Seq<char>, k: int)
    requires
        0 <= k <= info.len(),
        forall|j: int| 0 <= j < k ==> (#[trigger] info[j].name) != name,
    ensures
        field_index(info, name) == field_index_from(info, name, k),
    decreases k,
{
    if k > 0 {
        lemma_field_index_skip(info, name, k - 1);
    }
}

/// What resolving `steps` against the record `r` returns: the
/// traversal algorithm itself, one case per step shape and field
/// category, scanning left to right.
pub open spec fn spec_get(r: RecordModel, steps: Seq<StepModel>) -> Result<ValueModel, ErrorModel>
    recommends
        steps.len() > 0,
        record_conforms(r),
    decreases steps.len(), 0int,
{
    if steps.len() == 0 {
        arbitrary()
    } else {
        let step = steps[0];
        let name = step_name(step);
        let j = field_index(r.info, name);
        if j >= r.info.len() || j >= r.values.len() {
            Err(ErrorModel::FieldNotFound(name))
        } else {
            let t = r.info[j].field_type;
            let v = r.values[j];
            if steps.len() == 1 {
                match step {
                    StepModel::Field(_) => Ok(v),
                    StepModel::ArrayIndex(_, idx) => spec_final_index(t, v, name, idx),
                }
            } else {
                let rest = steps.drop_first();
                match step {
                    StepModel::Field(_) => match t {
                        FieldType::StructPath => match v {
                            ValueModel::Record(nested) => spec_get(nested, rest),
                            _ => Err(ErrorModel::FieldNotFound(name)),
                        },
                        FieldType::Option(mid) => match *mid {
                            FieldType::StructPath => match v {
                                ValueModel::Optional(o) => match o {
                                    Option::None => Ok(ValueModel::Optional(Option::None)),
                                    Option::Some(b) => match *b {
                                        ValueModel::Record(nested) => spec_get(nested, rest),
                                        _ => Err(ErrorModel::FieldNotFound(name)),
                                    },
                                },
                                _ => Err(ErrorModel::FieldNotFound(name)),
                            },
                            _ => Err(ErrorModel::FieldNotFound(name)),
                        },
                        _ => Err(ErrorModel::FieldNotFound(name)),
                    },
                    StepModel::ArrayIndex(_, idx) => match t {
                        FieldType::Vec(elem) => spec_nested_element(rest, *elem, v, name, idx),
                        FieldType::Option(mid) => match *mid {
                            FieldType::Vec(elem) => match v {
                                ValueModel::Optional(o) => match o {
                                    Option::None => Ok(ValueModel::Optional(Option::None)),
                                    Option::Some(b) => spec_nested_element(
                                        rest,
                                        *elem,
                                        *b,
                                        name,
                                        idx,
                                    ),
                                },
                                _ => Err(ErrorModel::FieldNotFound(name)),
                            },
                            _ => Err(ErrorModel::FieldNotFound(name)),
                        },
                        _ => Err(ErrorModel::FieldNotFound(name)),
                    },
                }
            }
        }
    }
}

/// A final index step into the field value `v` of category `t`: only
/// an array field (plain or optional-wrapped) takes an index. An
/// absent optional array yields `Optional(absent)` without the index
/// ever being consulted; a present array is bounds-checked, and the
/// selected element is returned as stored, optional wrapper included.
pub open spec fn spec_final_index(t: FieldType, v: ValueModel, name: Seq<char>, idx: usize) -> Result<
    ValueModel,
    ErrorModel,
> {
    match t {
        FieldType::Vec(_) => match v {
            ValueModel::Array(elems) => if idx < elems.len() {
                Ok(elems[idx as int])
            } else {
                Err(ErrorModel::IndexOutOfBounds(idx))
            },
            _ => Err(ErrorModel::FieldNotFound(name)),
        },
        FieldType::Option(mid) => match *mid {
            FieldType::Vec(_) => match v {
                ValueModel::Optional(o) => match o {
                    Option::None => Ok(ValueModel::Optional(Option::None)),
                    Option::Some(b) => match *b {
                        ValueModel::Array(elems) => if idx < elems.len() {
                            Ok(elems[idx as int])
                        } else {
                            Err(ErrorModel::IndexOutOfBounds(idx))
                        },
                        _ => Err(ErrorModel::FieldNotFound(name)),
                    },
                },
                _ => Err(ErrorModel::FieldNotFound(name)),
            },
            _ => Err(ErrorModel::FieldNotFound(name)),
        },
        _ => Err(ErrorModel::FieldNotFound(name)),
    }
}

/// A non-final index step, once any optional wrapper around the array
/// is known present: the element category must be a record (plain or
/// individually optional), the index is bounds-checked, an absent
/// optional element short-circuits, and traversal recurses into the
/// selected element's record.
pub open spec fn spec_nested_element(
    rest: Seq<StepModel>,
    elem: FieldType,
    v: ValueModel,
    name: Seq<char>,
    idx: usize,
) -> Result<ValueModel, ErrorModel>
    recommends
        rest.len() > 0,
    decreases rest.len(), 1int,
{
    match elem {
        FieldType::StructPath => match v {
            ValueModel::Array(elems) => if idx < elems.len() {
                match elems[idx as int] {
                    ValueModel::Record(nested) => spec_get(nested, rest),
                    _ => Err(ErrorModel::FieldNotFound(name)),
                }
            } else {
                Err(ErrorModel::IndexOutOfBounds(idx))
            },
            _ => Err(ErrorModel::FieldNotFound(name)),
        },
        FieldType::Option(inner) => match *inner {
            FieldType::StructPath => match v {
                ValueModel::Array(elems) => if idx < elems.len() {
                    match elems[idx as int] {
                        ValueModel::Optional(o) => match o {
                            Option::None => Ok(ValueModel::Optional(Option::None)),
                            Option::Some(b) => match *b {
                                ValueModel::Record(nested) => spec_get(nested, rest),
                                _ => Err(ErrorModel::FieldNotFound(name)),
                            },
                        },
                        _ => Err(ErrorModel::FieldNotFound(name)),
                    }
                } else {
                    Err(ErrorModel::IndexOutOfBounds(idx))
                },
                _ => Err(ErrorModel::FieldNotFound(name)),
            },
            _ => Err(ErrorModel::FieldNotFound(name)),
        },
        _ => Err(ErrorModel::FieldNotFound(name)),
    }
}

/// The model that an executable traversal result stands for.
pub open spec fn result_view(r: Result<Value, StructPathError>) -> Result<ValueModel, ErrorModel> {
    match r {
        Ok(v) => Ok(v@),
        Err(e) => Err(e@),
    }
}


impl Record {
    /// The first field of the table called `name`, or `None` when no
    /// field has that name.
    #[verifier::loop_isolation(false)]
    fn find_field(&self, name: &String) -> (r: Option<usize>)
        ensures
            match r {
                Some(j) => field_index(self@.info, name@) == j as int && (j as int)
                    < self@.info.len(),
                None => field_index(self@.info, name@) == self@.info.len(),
            },
    {
        let n = self.info.fields.len();
        let mut j: usize = 0;
        while j < n
            invariant
                j <= n,
                forall|k: int| 0 <= k < j ==> (#[trigger] self@.info[k].name) != name@,
            decreases n - j,
        {
            if self.info.fields[j].name == *name {
                proof {
                    lemma_field_index_skip(self@.info, name@, j as int);
                }
                return Some(j);
            }
            j += 1;
        }
        proof {
            lemma_field_index_skip(self@.info, name@, n as int);
        }
        None
    }

    /// Resolve the steps of `path` from position `from` onward against
    /// this record, returning exactly what [`spec_get`] says of the
    /// remaining steps.
    fn get_at(&self, path: &Path, from: usize) -> (r: Result<Value, StructPathError>)
        requires
            from < path@.len(),
        ensures
            result_view(r) == spec_get(self@, path@.skip(from as int)),
        decreases path@.len() - from, 1int,
    {
        proof {
            use_type_invariant(&*self);
            lemma_values_view_len(self.values@);
        }
        let ghost steps = path@.skip(from as int);
        proof {
            assert(steps[0] == path@[from as int]);
            assert(path.components@[from as int]@ == path@[from as int]);
            if steps.len() > 1 {
                assert(steps.drop_first() =~= path@.skip(from as int + 1));
            }
        }
        let n = path.components.len();
        proof {
            assert(path@.len() == path.components@.len());
        }
        let component = &path.components[from];
        let is_last = from + 1 == n;
        let (name, index) = match component {
            PathComponent::Field(nm) => (nm, None),
            PathComponent::ArrayIndex(nm, idx) => (nm, Some(*idx)),
        };
        let j = match self.find_field(name) {
            Some(j) => j,
            None => {
                return Err(StructPathError::FieldNotFound(name.clone()));
            },
        };
        let t = &self.info.fields[j].field_type;
        let v = &self.values[j];
        proof {
            lemma_values_view_index(self.values@, j as int);
            match self.values@[j as int] {
                Value::Optional(o) => match o {
                    Option::Some(bx) => {
                        assert(value_view(Value::Optional(Option::Some(bx)))
                            matches ValueModel::Optional(om) && om matches Some(bm) && *bm
                            == value_view(*bx));
                    },
                    Option::None => {},
                },
                _ => {},
            }
        }
        match index {
            None => {
                if is_last {
                    Ok(v.clone())
                } else {
                    match t {
                        FieldType::StructPath => match v {
                            Value::Record(b) => (&**b).get_at(path, from + 1),
                            _ => Err(StructPathError::FieldNotFound(name.clone())),
                        },
                        FieldType::Option(mid) => match &**mid {
                            FieldType::StructPath => match v {
                                Value::Optional(o) => match o {
                                    Option::None => Ok(Value::Optional(Option::None)),
                                    Option::Some(b) => match &**b {
                                        Value::Record(nested) => (&**nested).get_at(
                                            path,
                                            from + 1,
                                        ),
                                        _ => Err(StructPathError::FieldNotFound(name.clone())),
                                    },
                                },
                                _ => Err(StructPathError::FieldNotFound(name.clone())),
                            },
                            _ => Err(StructPathError::FieldNotFound(name.clone())),
                        },
                        _ => Err(StructPathError::FieldNotFound(name.clone())),
                    }
                }
            },
            Some(idx) => {
                if is_last {
                    match t {
                        FieldType::Vec(_) => match v {
                            Value::Array(elems) => final_element(elems, idx),
                            _ => Err(StructPathError::FieldNotFound(name.clone())),
                        },
                        FieldType::Option(mid) => match &**mid {
                            FieldType::Vec(_) => match v {
                                Value::Optional(o) => match o {
                                    Option::None => Ok(Value::Optional(Option::None)),
                                    Option::Some(b) => match &**b {
                                        Value::Array(elems) => final_element(elems, idx),
                                        _ => Err(StructPathError::FieldNotFound(name.clone())),
                                    },
                                },
                                _ => Err(StructPathError::FieldNotFound(name.clone())),
                            },
                            _ => Err(StructPathError::FieldNotFound(name.clone())),
                        },
                        _ => Err(StructPathError::FieldNotFound(name.clone())),
                    }
                } else {
                    match t {
                        FieldType::Vec(elem) => match v {
                            Value::Array(elems) => element_step(
                                elems,
                                &**elem,
                                path,
                                from,
                                idx,
                                name,
                            ),
                            _ => Err(StructPathError::FieldNotFound(name.clone())),
                        },
                        FieldType::Option(mid) => match &**mid {
                            FieldType::Vec(elem) => match v {
                                Value::Optional(o) => match o {
                                    Option::None => Ok(Value::Optional(Option::None)),
                                    Option::Some(b) => match &**b {
                                        Value::Array(elems) => {
                                            let res = element_step(
                                                elems,
                                                &**elem,
                                                path,
                                                from,
                                                idx,
                                                name,
                                            );
                                            proof {
                                                assert(v@ matches ValueModel::Optional(om)
                                                    && om matches Some(bm) && *bm
                                                    == ValueModel::Array(values_view(elems@)));
                                                assert(steps[0] == StepModel::ArrayIndex(
                                                    name@,
                                                    idx,
                                                ));
                                                assert(steps.len() > 1);
                                                assert(steps.drop_first() == path@.skip(
                                                    from as int + 1,
                                                ));
                                                assert(spec_get(self@, steps)
                                                    == spec_nested_element(
                                                    steps.drop_first(),
                                                    **elem,
                                                    ValueModel::Array(values_view(elems@)),
                                                    name@,
                                                    idx,
                                                ));
                                                assert(result_view(res) == spec_get(
                                                    self@,
                                                    steps,
                                                ));
                                            }
                                            res
                                        },
                                        _ => {
                                            let res = Err(
                                                StructPathError::FieldNotFound(name.clone()),
                                            );
                                            proof {
                                                lemma_view_shape(**b);
                                                assert(v@ matches ValueModel::Optional(om)
                                                    && om matches Some(bm) && *bm
                                                    == value_view(**b));
                                                assert(spec_get(self@, steps)
                                                    == spec_nested_element(
                                                    steps.drop_first(),
                                                    **elem,
                                                    value_view(**b),
                                                    name@,
                                                    idx,
                                                ));
                                                assert(result_view(res) == spec_get(
                                                    self@,
                                                    steps,
                                                ));
                                            }
                                            res
                                        },
                                    },
                                    _ => Err(StructPathError::FieldNotFound(name.clone())),
                                },
                                _ => Err(StructPathError::FieldNotFound(name.clone())),
                            },
                            _ => Err(StructPathError::FieldNotFound(name.clone())),
                        },
                        _ => Err(StructPathError::FieldNotFound(name.clone())),
                    }
                }
            },
        }
    }
}

impl Record {
    /// Resolve a parsed path against this record, producing the final
    /// type-erased value or the first error met, exactly as
    /// [`spec_get`] says. The path must hold at least one step, as
    /// every path that [`Path::from_str`] returns does.
    pub fn get_value_by_path(&self, path: &Path) -> (r: Result<Value, StructPathError>)
        requires
            path@.len() > 0,
        ensures
            result_view(r) == spec_get(self@, path@),
    {
        proof {
            assert(path@.skip(0) =~= path@);
        }
        self.get_at(path, 0)
    }

    /// Parse a path string and resolve it against this record. A
    /// string that does not parse is reported as `InvalidPath`,
    /// carrying the parse error's message, and traversal never
    /// begins; otherwise the parsed steps are resolved exactly as
    /// [`spec_get`] says.
    pub fn get_value(&self, path: &str) -> (r: Result<Value, StructPathError>)
        ensures
            parse_model(path@) matches Ok(steps) ==> result_view(r) == spec_get(self@, steps),
            parse_model(path@) matches Err(e) ==> r matches Err(se) && se@
                == ErrorModel::InvalidPath(parse_error_message(e)),
    {
        match Path::from_str(path) {
            Ok(p) => self.get_value_by_path(&p),
            Err(e) => Err(StructPathError::InvalidPath(e.message())),
        }
    }
}

/// An absent optional intermediate always wins over anything later in
/// the path: when the first step names an optional field whose stored
/// value is absent — an optional record under a field step, an
/// optional array under an index step — the whole path resolves to
/// `Optional(absent)`, whatever steps remain and whatever the index,
/// out of bounds included.
pub proof fn lemma_absent_short_circuit(r: RecordModel, steps: Seq<StepModel>)
    requires
        steps.len() > 0,
        ({
            let j = field_index(r.info, step_name(steps[0]));
            &&& 0 <= j < r.info.len()
            &&& j < r.values.len()
            &&& r.values[j] == ValueModel::Optional(Option::<Box<ValueModel>>::None)
            &&& match steps[0] {
                StepModel::Field(_) => r.info[j].field_type == FieldType::Option(
                    Box::new(FieldType::StructPath),
                ),
                StepModel::ArrayIndex(_, _) => r.info[j].field_type matches FieldType::Option(mid)
                    && (*mid matches FieldType::Vec(_)),
            }
        }),
    ensures
        spec_get(r, steps) == Ok::<ValueModel, ErrorModel>(
            ValueModel::Optional(Option::<Box<ValueModel>>::None),
        ),
{
}

/// A final index step once the array is at hand: the bounds-checked
/// element exactly as stored, or the index that missed.
fn final_element(elems: &Vec<Value>, idx: usize) -> (r: Result<Value, StructPathError>)
    ensures
        result_view(r) == (if (idx as int) < values_view(elems@).len() {
            Ok::<ValueModel, ErrorModel>(values_view(elems@)[idx as int])
        } else {
            Err::<ValueModel, ErrorModel>(ErrorModel::IndexOutOfBounds(idx))
        }),
{
    proof {
        lemma_values_view_len(elems@);
    }
    if idx < elems.len() {
        proof {
            lemma_values_view_index(elems@, idx as int);
        }
        Ok(elems[idx].clone())
    } else {
        Err(StructPathError::IndexOutOfBounds(idx))
    }
}

/// A non-final index step once the array is at hand: bounds-check,
/// short-circuit an absent optional element, and recurse into the
/// selected element's record, as [`spec_nested_element`] says.
fn element_step(
    elems: &Vec<Value>,
    elem_t: &FieldType,
    path: &Path,
    from: usize,
    idx: usize,
    nm: &String,
) -> (r: Result<Value, StructPathError>)
    requires
        from + 1 < path@.len(),
    ensures
        result_view(r) == spec_nested_element(
            path@.skip(from as int + 1),
            *elem_t,
            ValueModel::Array(values_view(elems@)),
            nm@,
            idx,
        ),
    decreases path@.len() - from, 0int,
{
    proof {
        assert(path.components.len() == path.components@.len());
        assert(path@.len() == path.components@.len());
        lemma_values_view_len(elems@);
    }
    match elem_t {
        FieldType::StructPath => {
            if idx < elems.len() {
                proof {
                    lemma_values_view_index(elems@, idx as int);
                }
                match &elems[idx] {
                    Value::Record(nested) => (&**nested).get_at(path, from + 1),
                    _ => Err(StructPathError::FieldNotFound(nm.clone())),
                }
            } else {
                Err(StructPathError::IndexOutOfBounds(idx))
            }
        },
        FieldType::Option(inner) => match &**inner {
            FieldType::StructPath => {
                if idx < elems.len() {
                    proof {
                        lemma_values_view_index(elems@, idx as int);
                        match elems@[idx as int] {
                            Value::Optional(o) => match o {
                                Option::Some(bx) => {
                                    assert(value_view(Value::Optional(Option::Some(bx)))
                                        matches ValueModel::Optional(om) && om matches Some(bm)
                                        && *bm == value_view(*bx));
                                },
                                Option::None => {},
                            },
                            _ => {},
                        }
                    }
                    match &elems[idx] {
                        Value::Optional(o) => match o {
                            Option::None => Ok(Value::Optional(Option::None)),
                            Option::Some(b) => match &**b {
                                Value::Record(nested) => (&**nested).get_at(path, from + 1),
                                _ => Err(StructPathError::FieldNotFound(nm.clone())),
                            },
                        },
                        _ => Err(StructPathError::FieldNotFound(nm.clone())),
                    }
                } else {
                    Err(StructPathError::IndexOutOfBounds(idx))
                }
            },
            _ => Err(StructPathError::FieldNotFound(nm.clone())),
        },
        _ => Err(StructPathError::FieldNotFound(nm.clone())),
    }
}

} // verus!

