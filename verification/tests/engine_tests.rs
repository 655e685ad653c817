use structpath::{FieldInfo, FieldType, FieldsInfo, Record, StructPathError, Value};

fn fi(name: &str, field_type: FieldType) -> FieldInfo {
    FieldInfo {
        name: name.to_string(),
        field_type,
    }
}

fn pet_fields() -> FieldsInfo {
    FieldsInfo {
        fields: vec![
            fi("name", FieldType::String),
            fi("birth_year", FieldType::Integer),
        ],
    }
}

fn pet(name: &str, birth_year: i64) -> Record {
    Record::new(
        pet_fields(),
        vec![Value::String(name.to_string()), Value::Integer(birth_year)],
    )
    .unwrap()
}

fn user_fields() -> FieldsInfo {
    FieldsInfo {
        fields: vec![
            fi("name", FieldType::String),
            fi("age", FieldType::Integer),
            fi("email", FieldType::Option(Box::new(FieldType::String))),
            fi("is_active", FieldType::Boolean),
            fi(
                "favourite_pet",
                FieldType::Option(Box::new(FieldType::StructPath)),
            ),
            fi("tags", FieldType::Vec(Box::new(FieldType::String))),
            fi("pets", FieldType::Vec(Box::new(FieldType::StructPath))),
        ],
    }
}

/// Create a new user with arbitrary values.
fn create_test_user() -> Record {
    Record::new(
        user_fields(),
        vec![
            Value::String("John Doe".to_string()),
            Value::Integer(30),
            Value::Optional(Some(Box::new(Value::String(
                "john.doe@example.com".to_string(),
            )))),
            Value::Boolean(true),
            Value::Optional(Some(Box::new(Value::Record(Box::new(pet("Buddy", 2020)))))),
            Value::Array(vec![
                Value::String("premium".to_string()),
                Value::String("verified".to_string()),
            ]),
            Value::Array(vec![
                Value::Record(Box::new(pet("Buddy", 2020))),
                Value::Record(Box::new(pet("Max", 2022))),
            ]),
        ],
    )
    .unwrap()
}

/// A user with every field at its plain default: empty scalars, absent
/// optionals, empty arrays.
fn default_test_user() -> Record {
    Record::new(
        user_fields(),
        vec![
            Value::String(String::new()),
            Value::Integer(0),
            Value::Optional(None),
            Value::Boolean(false),
            Value::Optional(None),
            Value::Array(vec![]),
            Value::Array(vec![]),
        ],
    )
    .unwrap()
}

#[test]
fn test_get_value_user() {
    let user = create_test_user();

    let name = user.get_value("name").unwrap();
    assert_eq!(name.as_str(), "John Doe");

    let age = user.get_value("age").unwrap();
    assert_eq!(age.as_i64(), 30);

    let email = user.get_value("email").unwrap();
    assert_eq!(email.unwrap().as_str(), "john.doe@example.com");

    let is_active = user.get_value("is_active").unwrap();
    assert_eq!(is_active.as_bool(), true);

    let favourite_pet = user.get_value("favourite_pet").unwrap();
    assert_eq!(favourite_pet.unwrap().as_record(), &pet("Buddy", 2020));

    let tags = user.get_value("tags").unwrap();
    assert_eq!(
        tags.as_array(),
        &vec![
            Value::String("premium".to_string()),
            Value::String("verified".to_string()),
        ]
    );
    let tag0 = user.get_value("tags[0]").unwrap();
    assert_eq!(tag0.as_str(), "premium");

    let pets = user.get_value("pets").unwrap();
    assert_eq!(
        pets.as_array(),
        &vec![
            Value::Record(Box::new(pet("Buddy", 2020))),
            Value::Record(Box::new(pet("Max", 2022))),
        ]
    );
    let pet0 = user.get_value("pets[0]").unwrap();
    assert_eq!(pet0.as_record(), &pet("Buddy", 2020));
    let pet0_name = user.get_value("pets[0].name").unwrap();
    assert_eq!(pet0_name.as_str(), "Buddy");
    let pet0_birth_year = user.get_value("pets[0].birth_year").unwrap();
    assert_eq!(pet0_birth_year.as_i64(), 2020);
}

#[test]
fn test_get_value_user_default() {
    let user = default_test_user();

    let name = user.get_value("name").unwrap();
    assert_eq!(name.as_str(), "");

    let age = user.get_value("age").unwrap();
    assert_eq!(age.as_i64(), 0);

    let email = user.get_value("email").unwrap();
    assert_eq!(email.as_option(), None);

    let is_active = user.get_value("is_active").unwrap();
    assert_eq!(is_active.as_bool(), false);

    let favourite_pet = user.get_value("favourite_pet").unwrap();
    assert_eq!(favourite_pet.as_option(), None);

    let tags = user.get_value("tags").unwrap();
    assert_eq!(tags.as_array(), &Vec::<Value>::new());

    let pets = user.get_value("pets").unwrap();
    assert_eq!(pets.as_array(), &Vec::<Value>::new());
}

#[test]
fn test_required_string_field() {
    let record = Record::new(
        FieldsInfo {
            fields: vec![fi("name", FieldType::String)],
        },
        vec![Value::String("John".to_string())],
    )
    .unwrap();
    assert_eq!(
        record.get_value("name").unwrap(),
        Value::String("John".to_string())
    );
}

#[test]
fn test_optional_integer_field() {
    let fields = FieldsInfo {
        fields: vec![fi("age", FieldType::Option(Box::new(FieldType::Integer)))],
    };
    let absent = Record::new(fields, vec![Value::Optional(None)]).unwrap();
    assert_eq!(absent.get_value("age").unwrap(), Value::Optional(None));

    let fields = FieldsInfo {
        fields: vec![fi("age", FieldType::Option(Box::new(FieldType::Integer)))],
    };
    let present = Record::new(
        fields,
        vec![Value::Optional(Some(Box::new(Value::Integer(32))))],
    )
    .unwrap();
    assert_eq!(
        present.get_value("age").unwrap(),
        Value::Optional(Some(Box::new(Value::Integer(32))))
    );
}

#[test]
fn test_array_of_records() {
    let record = Record::new(
        FieldsInfo {
            fields: vec![fi("parent", FieldType::Vec(Box::new(FieldType::StructPath)))],
        },
        vec![Value::Array(vec![Value::Record(Box::new(pet(
            "Joseph", 1990,
        )))])],
    )
    .unwrap();
    assert_eq!(
        record.get_value("parent[0].name").unwrap(),
        Value::String("Joseph".to_string())
    );
}

#[test]
fn test_absent_optional_array_beats_index() {
    // Indexing an absent optional array reports absence, never an
    // out-of-bounds error.
    let record = Record::new(
        FieldsInfo {
            fields: vec![fi(
                "tags",
                FieldType::Option(Box::new(FieldType::Vec(Box::new(FieldType::String)))),
            )],
        },
        vec![Value::Optional(None)],
    )
    .unwrap();
    assert_eq!(record.get_value("tags[0]").unwrap(), Value::Optional(None));
    assert_eq!(
        record.get_value("tags[999]").unwrap(),
        Value::Optional(None)
    );
}

#[test]
fn test_index_out_of_bounds() {
    let record = Record::new(
        FieldsInfo {
            fields: vec![fi("tags", FieldType::Vec(Box::new(FieldType::String)))],
        },
        vec![Value::Array(vec![
            Value::String("a".to_string()),
            Value::String("b".to_string()),
        ])],
    )
    .unwrap();
    match record.get_value("tags[5]").unwrap_err() {
        StructPathError::IndexOutOfBounds(i) => assert_eq!(i, 5),
        other => panic!("wrong error: {:?}", other),
    }
}

#[test]
fn test_field_not_found() {
    let record = create_test_user();
    match record.get_value("nope").unwrap_err() {
        StructPathError::FieldNotFound(name) => assert_eq!(name, "nope"),
        other => panic!("wrong error: {:?}", other),
    }
    // A step that nests into a non-record value is not found either.
    match record.get_value("name.inner").unwrap_err() {
        StructPathError::FieldNotFound(name) => assert_eq!(name, "name"),
        other => panic!("wrong error: {:?}", other),
    }
    match record.get_value("tags[0].inner").unwrap_err() {
        StructPathError::FieldNotFound(name) => assert_eq!(name, "tags"),
        other => panic!("wrong error: {:?}", other),
    }
}

#[test]
fn test_absent_optional_record_short_circuits() {
    let user = default_test_user();
    assert_eq!(
        user.get_value("favourite_pet.name").unwrap(),
        Value::Optional(None)
    );
    assert_eq!(
        user.get_value("favourite_pet.name.deeper.still").unwrap(),
        Value::Optional(None)
    );
}

#[test]
fn test_optional_array_of_optional_records() {
    let fields = FieldsInfo {
        fields: vec![fi(
            "parents",
            FieldType::Option(Box::new(FieldType::Vec(Box::new(FieldType::Option(
                Box::new(FieldType::StructPath),
            ))))),
        )],
    };
    let record = Record::new(
        fields,
        vec![Value::Optional(Some(Box::new(Value::Array(vec![
            Value::Optional(Some(Box::new(Value::Record(Box::new(pet(
                "Joseph", 1990,
            )))))),
            Value::Optional(None),
        ]))))],
    )
    .unwrap();
    assert_eq!(
        record.get_value("parents[0].name").unwrap(),
        Value::String("Joseph".to_string())
    );
    assert_eq!(
        record.get_value("parents[1].name").unwrap(),
        Value::Optional(None)
    );
    match record.get_value("parents[2].name").unwrap_err() {
        StructPathError::IndexOutOfBounds(i) => assert_eq!(i, 2),
        other => panic!("wrong error: {:?}", other),
    }
}

#[test]
fn test_nested_record_chain() {
    let inner = Record::new(
        FieldsInfo {
            fields: vec![fi("name", FieldType::String)],
        },
        vec![Value::String("core".to_string())],
    )
    .unwrap();
    let middle = Record::new(
        FieldsInfo {
            fields: vec![fi("inner", FieldType::StructPath)],
        },
        vec![Value::Record(Box::new(inner))],
    )
    .unwrap();
    let outer = Record::new(
        FieldsInfo {
            fields: vec![fi("middle", FieldType::StructPath)],
        },
        vec![Value::Record(Box::new(middle))],
    )
    .unwrap();
    assert_eq!(
        outer.get_value("middle.inner.name").unwrap(),
        Value::String("core".to_string())
    );
}

#[test]
fn test_invalid_path_reported_before_traversal() {
    let user = create_test_user();
    match user.get_value("").unwrap_err() {
        StructPathError::InvalidPath(m) => assert_eq!(m, "Empty path"),
        other => panic!("wrong error: {:?}", other),
    }
    match user.get_value("pets[x]").unwrap_err() {
        StructPathError::InvalidPath(m) => assert_eq!(m, "Invalid array index: x"),
        other => panic!("wrong error: {:?}", other),
    }
}

#[test]
fn test_get_value_by_path() {
    let user = create_test_user();
    let path = structpath::Path::from_str("pets[1].name").unwrap();
    assert_eq!(
        user.get_value_by_path(&path).unwrap(),
        Value::String("Max".to_string())
    );
}

#[test]
fn test_first_field_wins_on_duplicate_names() {
    let record = Record::new(
        FieldsInfo {
            fields: vec![fi("x", FieldType::Integer), fi("x", FieldType::String)],
        },
        vec![Value::Integer(1), Value::String("two".to_string())],
    )
    .unwrap();
    assert_eq!(record.get_value("x").unwrap(), Value::Integer(1));
}

#[test]
fn test_unknown_field_is_opaque() {
    // An unknown-category field carries an opaque record handle: a
    // final step yields it whole, but no step may nest into it.
    let record = Record::new(
        FieldsInfo {
            fields: vec![fi("blob", FieldType::Unknown)],
        },
        vec![Value::Record(Box::new(pet("Buddy", 2020)))],
    )
    .unwrap();
    assert_eq!(
        record.get_value("blob").unwrap(),
        Value::Record(Box::new(pet("Buddy", 2020)))
    );
    match record.get_value("blob.name").unwrap_err() {
        StructPathError::FieldNotFound(name) => assert_eq!(name, "blob"),
        other => panic!("wrong error: {:?}", other),
    }
}
