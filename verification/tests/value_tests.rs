use structpath::{FieldInfo, FieldType, FieldsInfo, Record, StructPathError, Value};

fn fi(name: &str, field_type: FieldType) -> FieldInfo {
    FieldInfo {
        name: name.to_string(),
        field_type,
    }
}

fn point_record() -> Record {
    Record::new(
        FieldsInfo {
            fields: vec![fi("x", FieldType::Integer), fi("y", FieldType::Integer)],
        },
        vec![Value::Integer(1), Value::Integer(2)],
    )
    .unwrap()
}

#[test]
fn test_roundtrip_string() {
    let v = Value::String("John".to_string());
    assert_eq!(v.as_str(), "John");
    assert_eq!(v.as_string(), "John".to_string());
}

#[test]
fn test_roundtrip_integer() {
    assert_eq!(Value::Integer(-42).as_i64(), -42);
    assert_eq!(Value::Integer(i64::MAX).as_i64(), i64::MAX);
}

#[test]
fn test_roundtrip_float_bits() {
    let bits = (3.5f64).to_bits();
    assert_eq!(Value::Float(bits).as_float_bits(), bits);
    assert_eq!(f64::from_bits(Value::Float(bits).as_float_bits()), 3.5f64);
    let nan_bits = f64::NAN.to_bits();
    assert_eq!(Value::Float(nan_bits).as_float_bits(), nan_bits);
}

#[test]
fn test_roundtrip_boolean() {
    assert_eq!(Value::Boolean(true).as_bool(), true);
    assert_eq!(Value::Boolean(false).as_bool(), false);
}

#[test]
fn test_roundtrip_record() {
    let rec = point_record();
    let v = Value::Record(Box::new(point_record()));
    assert_eq!(v.as_record(), &rec);
}

#[test]
fn test_roundtrip_array() {
    let elems = vec![Value::Integer(1), Value::Integer(2)];
    let v = Value::Array(vec![Value::Integer(1), Value::Integer(2)]);
    assert_eq!(v.as_array(), &elems);
}

#[test]
fn test_roundtrip_optional() {
    let present = Value::Optional(Some(Box::new(Value::Integer(7))));
    assert_eq!(present.unwrap(), &Value::Integer(7));
    assert_eq!(present.as_option(), Some(Value::Integer(7)));
    let absent = Value::Optional(None);
    assert_eq!(absent.as_option(), None);
}

#[test]
fn test_category_names() {
    assert_eq!(Value::String("a".to_string()).category_name(), "String");
    assert_eq!(Value::Integer(0).category_name(), "Integer");
    assert_eq!(Value::Float(0).category_name(), "Float");
    assert_eq!(Value::Boolean(false).category_name(), "Boolean");
    assert_eq!(Value::Array(vec![]).category_name(), "Array");
    assert_eq!(Value::Optional(None).category_name(), "Optional");
    assert_eq!(FieldType::String.category_name(), "String");
    assert_eq!(
        FieldType::Option(Box::new(FieldType::Integer)).category_name(),
        "Option"
    );
    assert_eq!(
        FieldType::Vec(Box::new(FieldType::String)).category_name(),
        "Vec"
    );
}

#[test]
fn test_record_new_checks_count() {
    let err = Record::new(
        FieldsInfo {
            fields: vec![fi("x", FieldType::Integer)],
        },
        vec![],
    )
    .unwrap_err();
    match err {
        StructPathError::TypeMismatch { expected, actual } => {
            assert_eq!(expected, "one value per field");
            assert_eq!(actual, "a different count");
        }
        other => panic!("wrong error: {:?}", other),
    }
}

#[test]
fn test_record_new_checks_category() {
    let err = Record::new(
        FieldsInfo {
            fields: vec![fi("x", FieldType::Integer)],
        },
        vec![Value::String("oops".to_string())],
    )
    .unwrap_err();
    match err {
        StructPathError::TypeMismatch { expected, actual } => {
            assert_eq!(expected, "Integer");
            assert_eq!(actual, "String");
        }
        other => panic!("wrong error: {:?}", other),
    }
}

#[test]
fn test_record_new_checks_optional_shape() {
    // An optional integer field takes only an optional wrapper, not a
    // bare integer.
    let err = Record::new(
        FieldsInfo {
            fields: vec![fi("age", FieldType::Option(Box::new(FieldType::Integer)))],
        },
        vec![Value::Integer(5)],
    )
    .unwrap_err();
    match err {
        StructPathError::TypeMismatch { expected, actual } => {
            assert_eq!(expected, "Option");
            assert_eq!(actual, "Integer");
        }
        other => panic!("wrong error: {:?}", other),
    }
}

#[test]
fn test_record_new_checks_array_elements() {
    let err = Record::new(
        FieldsInfo {
            fields: vec![fi("tags", FieldType::Vec(Box::new(FieldType::String)))],
        },
        vec![Value::Array(vec![
            Value::String("ok".to_string()),
            Value::Integer(3),
        ])],
    )
    .unwrap_err();
    assert!(matches!(err, StructPathError::TypeMismatch { .. }));
}

#[test]
fn test_clone_is_deep_copy() {
    let rec = point_record();
    let copy = rec.clone();
    assert_eq!(rec, copy);
    let v = Value::Array(vec![
        Value::Record(Box::new(point_record())),
        Value::Optional(Some(Box::new(Value::String("s".to_string())))),
    ]);
    assert_eq!(v.clone(), v);
}

#[test]
fn test_record_accessors() {
    let rec = point_record();
    assert_eq!(rec.get_fields_info().fields.len(), 2);
    assert_eq!(rec.get_fields_info().fields[0].name, "x");
    assert_eq!(
        rec.get_values(),
        &vec![Value::Integer(1), Value::Integer(2)]
    );
}
