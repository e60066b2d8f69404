use todo_store::convert::value_to_object;
use todo_store::todo_model::object_to_todo;
use todo_store::Content;
use todo_store::Creatable;
use todo_store::Error;
use todo_store::Kind;
use todo_store::Object;
use todo_store::Patchable;
use todo_store::Todo;
use todo_store::TodoPatch;
use todo_store::Value;

fn cell(t: &str, b: &str) -> Content {
    Content { content_type: t.to_string(), content_body: b.to_string() }
}

fn cell_value(t: &str, b: &str) -> Value {
    Value::Object(Object {
        fields: vec![
            ("content_type".to_string(), Value::Strand(t.to_string())),
            ("content_body".to_string(), Value::Strand(b.to_string())),
        ],
    })
}

fn sample_todo(id: Option<&str>) -> Todo {
    Todo {
        id: id.map(|s| s.to_string()),
        title: "groceries".to_string(),
        body: vec![
            vec![cell("text", "milk"), cell("text", "eggs")],
            vec![cell("check", "done")],
        ],
    }
}

#[test]
fn round_trip_without_id() {
    let todo = sample_todo(None);
    let v = todo.to_value();
    let o = value_to_object(v).expect("a record serializes to an object");
    let back = object_to_todo(&o).expect("a serialized record re-types");
    assert_eq!(back, todo);
}

#[test]
fn round_trip_with_id() {
    let todo = sample_todo(Some("todo:k9"));
    let v = todo.to_value();
    let o = value_to_object(v).expect("a record serializes to an object");
    let back = object_to_todo(&o).expect("a serialized record re-types");
    assert_eq!(back, todo);
}

#[test]
fn serialized_record_omits_absent_id() {
    let todo = sample_todo(None);
    match todo.to_value() {
        Value::Object(o) => {
            assert_eq!(o.fields.len(), 2);
            assert_eq!(o.fields[0].0, "title");
            assert_eq!(o.fields[1].0, "body");
        },
        _ => panic!("a record serializes to an object"),
    }
}

#[test]
fn serialized_record_keeps_present_id() {
    let todo = sample_todo(Some("todo:k9"));
    match todo.to_value() {
        Value::Object(o) => {
            assert_eq!(o.fields.len(), 3);
            assert_eq!(o.fields[0].0, "id");
            match &o.fields[0].1 {
                Value::Strand(s) => assert_eq!(s, "todo:k9"),
                _ => panic!("the identifier serializes as a string"),
            }
        },
        _ => panic!("a record serializes to an object"),
    }
}

#[test]
fn patch_with_absent_title_serializes_body_alone() {
    let patch = TodoPatch { title: None, body: Some(vec![vec![cell("text", "hi")]]) };
    match patch.to_value() {
        Value::Object(o) => {
            assert_eq!(o.fields.len(), 1);
            assert_eq!(o.fields[0].0, "body");
        },
        _ => panic!("a patch serializes to an object"),
    }
}

#[test]
fn empty_patch_serializes_to_empty_object() {
    let patch = TodoPatch { title: None, body: None };
    match patch.to_value() {
        Value::Object(o) => assert_eq!(o.fields.len(), 0),
        _ => panic!("a patch serializes to an object"),
    }
}

#[test]
fn patch_with_empty_body_still_sends_it() {
    let patch = TodoPatch { title: None, body: Some(vec![]) };
    match patch.to_value() {
        Value::Object(o) => {
            assert_eq!(o.fields.len(), 1);
            assert_eq!(o.fields[0].0, "body");
            match &o.fields[0].1 {
                Value::Array(rows) => assert_eq!(rows.len(), 0),
                _ => panic!("a body serializes to an array"),
            }
        },
        _ => panic!("a patch serializes to an object"),
    }
}

#[test]
fn patch_with_both_fields_serializes_both() {
    let patch = TodoPatch {
        title: Some("new title".to_string()),
        body: Some(vec![]),
    };
    match patch.to_value() {
        Value::Object(o) => {
            assert_eq!(o.fields.len(), 2);
            assert_eq!(o.fields[0].0, "title");
            assert_eq!(o.fields[1].0, "body");
        },
        _ => panic!("a patch serializes to an object"),
    }
}

#[test]
fn thing_identifier_is_rendered_as_table_colon_key() {
    let o = Object {
        fields: vec![
            ("id".to_string(), Value::Thing("todo".to_string(), "abc123".to_string())),
            ("title".to_string(), Value::Strand("t".to_string())),
            ("body".to_string(), Value::Array(vec![])),
        ],
    };
    let t = object_to_todo(&o).expect("a well-shaped row re-types");
    assert_eq!(t.id, Some("todo:abc123".to_string()));
    assert_eq!(t.title, "t");
    assert_eq!(t.body.len(), 0);
}

#[test]
fn missing_title_is_a_conversion_error() {
    let o = Object {
        fields: vec![("body".to_string(), Value::Array(vec![]))],
    };
    let e = object_to_todo(&o).expect_err("a row without a title is rejected");
    assert_eq!(e, Error::ConversionError { expected: Kind::Strand, got: None });
}

#[test]
fn numeric_title_is_a_conversion_error() {
    let o = Object {
        fields: vec![
            ("title".to_string(), Value::Number(7)),
            ("body".to_string(), Value::Array(vec![])),
        ],
    };
    let e = object_to_todo(&o).expect_err("a numeric title is rejected");
    assert_eq!(e, Error::ConversionError { expected: Kind::Strand, got: Some(Kind::Number) });
}

#[test]
fn missing_body_is_a_conversion_error() {
    let o = Object {
        fields: vec![("title".to_string(), Value::Strand("t".to_string()))],
    };
    let e = object_to_todo(&o).expect_err("a row without a body is rejected");
    assert_eq!(e, Error::ConversionError { expected: Kind::Array, got: None });
}

#[test]
fn non_array_row_in_body_is_a_conversion_error() {
    let o = Object {
        fields: vec![
            ("title".to_string(), Value::Strand("t".to_string())),
            ("body".to_string(), Value::Array(vec![Value::Null])),
        ],
    };
    let e = object_to_todo(&o).expect_err("a body row that is no array is rejected");
    assert_eq!(e, Error::ConversionError { expected: Kind::Array, got: Some(Kind::Null) });
}

#[test]
fn cell_without_content_body_is_a_conversion_error() {
    let bad_cell = Value::Object(Object {
        fields: vec![("content_type".to_string(), Value::Strand("text".to_string()))],
    });
    let o = Object {
        fields: vec![
            ("title".to_string(), Value::Strand("t".to_string())),
            ("body".to_string(), Value::Array(vec![Value::Array(vec![bad_cell])])),
        ],
    };
    let e = object_to_todo(&o).expect_err("a cell without its body field is rejected");
    assert_eq!(e, Error::ConversionError { expected: Kind::Strand, got: None });
}

#[test]
fn narrowing_a_number_to_an_object_fails() {
    let e = value_to_object(Value::Number(3)).expect_err("a number is no object");
    assert_eq!(e, Error::ConversionError { expected: Kind::Object, got: Some(Kind::Number) });
}

#[test]
fn content_serializes_its_two_fields() {
    let v = cell("text", "hi").to_value();
    match v {
        Value::Object(o) => {
            assert_eq!(o.fields.len(), 2);
            assert_eq!(o.fields[0].0, "content_type");
            assert_eq!(o.fields[1].0, "content_body");
        },
        _ => panic!("a cell serializes to an object"),
    }
    let same = cell_value("text", "hi");
    match same {
        Value::Object(o) => assert_eq!(o.fields.len(), 2),
        _ => panic!("a cell value is an object"),
    }
}

#[test]
fn client_errors_are_told_apart() {
    assert!(Error::EmptyIdError.is_client_error());
    assert!(Error::IndexOutOfBounds.is_client_error());
    assert!(!Error::MissingResultError.is_client_error());
    assert!(!Error::BackendError("boom".to_string()).is_client_error());
    assert!(
        !Error::ConversionError { expected: Kind::Object, got: None }.is_client_error()
    );
}
