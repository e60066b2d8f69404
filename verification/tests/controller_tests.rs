use todo_store::controller::delete_receipt;
use todo_store::controller::row_response;
use todo_store::controller::rows_response;
use todo_store::controller::update_todo_item;
use todo_store::todo_model::object_to_todo;
use todo_store::Content;
use todo_store::Error;
use todo_store::Kind;
use todo_store::Object;
use todo_store::ResultSet;
use todo_store::Todo;
use todo_store::TodoBMC;
use todo_store::TodoPatch;
use todo_store::Value;

fn cell(t: &str, b: &str) -> Content {
    Content { content_type: t.to_string(), content_body: b.to_string() }
}

fn cell_value(t: &str, b: &str) -> Value {
    Value::Object(Object {
        fields: vec![
            ("content_type".to_string(), Value::Strand(t.to_string())),
            ("content_body".to_string(), Value::Strand(b.to_string())),
        ],
    })
}

fn row_value(cells: Vec<Value>) -> Value {
    Value::Array(cells)
}

/// A stored row with the given title and a 2x3 body grid.
fn stored_row_2x3(title: &str) -> Value {
    Value::Object(Object {
        fields: vec![
            ("title".to_string(), Value::Strand(title.to_string())),
            (
                "body".to_string(),
                Value::Array(vec![
                    row_value(vec![
                        cell_value("text", "a"),
                        cell_value("text", "b"),
                        cell_value("text", "c"),
                    ]),
                    row_value(vec![
                        cell_value("text", "d"),
                        cell_value("text", "e"),
                        cell_value("text", "f"),
                    ]),
                ]),
            ),
        ],
    })
}

fn ok_payload(v: Value) -> Vec<ResultSet> {
    vec![ResultSet { result: Ok(v) }]
}

#[test]
fn create_request_binds_table_and_data() {
    let todo = Todo {
        id: None,
        title: "t".to_string(),
        body: vec![vec![cell("text", "hi")]],
    };
    let req = TodoBMC::create("todo", &todo).expect("a record yields a create request");
    assert_eq!(req.sql, "CREATE type::table($tb) CONTENT $data RETURN *");
    assert!(!req.one_shot);
    let vars = req.vars.expect("create binds variables");
    assert_eq!(vars.len(), 2);
    assert_eq!(vars[0].0, "tb");
    match &vars[0].1 {
        Value::Strand(s) => assert_eq!(s, "todo"),
        _ => panic!("the table name is bound as a string"),
    }
    assert_eq!(vars[1].0, "data");
    match &vars[1].1 {
        Value::Object(o) => {
            assert_eq!(o.fields.len(), 2);
            assert_eq!(o.fields[0].0, "title");
            assert_eq!(o.fields[1].0, "body");
        },
        _ => panic!("the record is bound as an object"),
    }
}

#[test]
fn get_all_request_reads_the_whole_table() {
    let req = TodoBMC::get_all();
    assert_eq!(req.sql, "SELECT * FROM todo");
    assert!(req.one_shot);
    assert!(req.vars.is_none());
}

#[test]
fn get_request_binds_typed_identifier() {
    let req = TodoBMC::get("abc").expect("a non-empty identifier yields a request");
    assert_eq!(req.sql, "SELECT * FROM $th");
    assert!(req.one_shot);
    let vars = req.vars.expect("get binds the identifier");
    assert_eq!(vars.len(), 1);
    assert_eq!(vars[0].0, "th");
    match &vars[0].1 {
        Value::Thing(tb, key) => {
            assert_eq!(tb, "todo");
            assert_eq!(key, "abc");
        },
        _ => panic!("the identifier is bound as a typed identifier"),
    }
}

#[test]
fn update_request_binds_identifier_and_patch() {
    let patch = TodoPatch { title: Some("n".to_string()), body: None };
    let req = TodoBMC::update("abc", &patch).expect("a non-empty identifier yields a request");
    assert_eq!(req.sql, "UPDATE $th MERGE $data RETURN *");
    assert!(req.one_shot);
    let vars = req.vars.expect("update binds variables");
    assert_eq!(vars.len(), 2);
    assert_eq!(vars[0].0, "th");
    assert_eq!(vars[1].0, "data");
    match &vars[1].1 {
        Value::Object(o) => {
            assert_eq!(o.fields.len(), 1);
            assert_eq!(o.fields[0].0, "title");
        },
        _ => panic!("the patch is bound as an object"),
    }
}

#[test]
fn delete_request_binds_typed_identifier() {
    let req = TodoBMC::delete("abc").expect("a non-empty identifier yields a request");
    assert_eq!(req.sql, "DELETE $th RETURN *");
    assert!(!req.one_shot);
    let vars = req.vars.expect("delete binds the identifier");
    assert_eq!(vars.len(), 1);
    assert_eq!(vars[0].0, "th");
}

#[test]
fn empty_identifier_is_rejected_before_any_store_call() {
    let patch = TodoPatch { title: None, body: None };
    assert_eq!(TodoBMC::get("").expect_err("empty id"), Error::EmptyIdError);
    assert_eq!(TodoBMC::update("", &patch).expect_err("empty id"), Error::EmptyIdError);
    assert_eq!(TodoBMC::delete("").expect_err("empty id"), Error::EmptyIdError);
    assert!(Error::EmptyIdError.is_client_error());
}

#[test]
fn row_response_without_result_sets_is_missing() {
    let e = row_response(vec![]).expect_err("no result set");
    assert_eq!(e, Error::MissingResultError);
}

#[test]
fn row_response_surfaces_backend_error() {
    let e = row_response(vec![ResultSet { result: Err("boom".to_string()) }])
        .expect_err("store failure");
    assert_eq!(e, Error::BackendError("boom".to_string()));
}

#[test]
fn row_response_with_empty_row_set_is_missing() {
    let e = row_response(ok_payload(Value::Array(vec![]))).expect_err("no row");
    assert_eq!(e, Error::MissingResultError);
}

#[test]
fn row_response_with_non_array_payload_is_a_conversion_error() {
    let e = row_response(ok_payload(Value::Strand("x".to_string()))).expect_err("no array");
    assert_eq!(e, Error::ConversionError { expected: Kind::Array, got: Some(Kind::Strand) });
}

#[test]
fn row_response_with_non_object_row_is_a_conversion_error() {
    let e = row_response(ok_payload(Value::Array(vec![Value::Number(1)])))
        .expect_err("no object row");
    assert_eq!(e, Error::ConversionError { expected: Kind::Object, got: Some(Kind::Number) });
}

#[test]
fn row_response_returns_the_first_row() {
    let o = row_response(ok_payload(Value::Array(vec![stored_row_2x3("t"), Value::Null])))
        .expect("a well-shaped response yields its first row");
    assert_eq!(o.fields.len(), 2);
    assert_eq!(o.fields[0].0, "title");
}

#[test]
fn rows_response_on_an_empty_store_is_an_empty_sequence() {
    let objs = rows_response(ok_payload(Value::Array(vec![])))
        .expect("an empty table is no error");
    assert_eq!(objs.len(), 0);
}

#[test]
fn rows_response_returns_every_row() {
    let objs = rows_response(ok_payload(Value::Array(vec![
        stored_row_2x3("a"),
        stored_row_2x3("b"),
    ])))
    .expect("well-shaped rows all narrow");
    assert_eq!(objs.len(), 2);
    match &objs[1].fields[0].1 {
        Value::Strand(s) => assert_eq!(s, "b"),
        _ => panic!("the title is a string"),
    }
}

#[test]
fn rows_response_aborts_on_one_bad_row() {
    let e = rows_response(ok_payload(Value::Array(vec![stored_row_2x3("a"), Value::Number(1)])))
        .expect_err("one bad row aborts the whole call");
    assert_eq!(e, Error::ConversionError { expected: Kind::Object, got: Some(Kind::Number) });
}

#[test]
fn delete_receipt_echoes_the_identifier_whatever_came_back() {
    let r1 = delete_receipt("abc", ok_payload(Value::Null)).expect("receipt");
    assert_eq!(r1, "todo:abc");
    let r2 = delete_receipt("abc", ok_payload(Value::Array(vec![stored_row_2x3("t")])))
        .expect("receipt");
    assert_eq!(r2, "todo:abc");
    let r3 = delete_receipt("abc", ok_payload(Value::Strand("junk".to_string())))
        .expect("receipt");
    assert_eq!(r3, "todo:abc");
}

#[test]
fn delete_receipt_surfaces_backend_error() {
    let e = delete_receipt("abc", vec![ResultSet { result: Err("down".to_string()) }])
        .expect_err("store failure");
    assert_eq!(e, Error::BackendError("down".to_string()));
}

#[test]
fn update_todo_item_in_bounds_builds_the_merge_request() {
    let ress = ok_payload(Value::Array(vec![stored_row_2x3("t")]));
    let req = update_todo_item("abc", ress, 1, 2, cell("check", "new"))
        .expect("indices inside a 2x3 grid are accepted");
    assert_eq!(req.sql, "UPDATE $th MERGE $data RETURN *");
    let vars = req.vars.expect("the merge binds variables");
    assert_eq!(vars[1].0, "data");
    let patch_obj = match &vars[1].1 {
        Value::Object(o) => o,
        _ => panic!("the patch is bound as an object"),
    };
    assert_eq!(patch_obj.fields.len(), 1);
    assert_eq!(patch_obj.fields[0].0, "body");
    let rows = match &patch_obj.fields[0].1 {
        Value::Array(rows) => rows,
        _ => panic!("the body is an array"),
    };
    assert_eq!(rows.len(), 2);
    let cells = match &rows[1] {
        Value::Array(cells) => cells,
        _ => panic!("a row is an array"),
    };
    assert_eq!(cells.len(), 3);
    match &cells[2] {
        Value::Object(o) => {
            match &o.fields[1].1 {
                Value::Strand(s) => assert_eq!(s, "new"),
                _ => panic!("the cell body is a string"),
            }
        },
        _ => panic!("a cell is an object"),
    }
}

#[test]
fn update_todo_item_row_out_of_bounds_writes_nothing() {
    let ress = ok_payload(Value::Array(vec![stored_row_2x3("t")]));
    let e = update_todo_item("abc", ress, 2, 0, cell("check", "new"))
        .expect_err("row index 2 is outside a 2x3 grid");
    assert_eq!(e, Error::IndexOutOfBounds);
    assert!(e.is_client_error());
}

#[test]
fn update_todo_item_column_out_of_bounds_writes_nothing() {
    let ress = ok_payload(Value::Array(vec![stored_row_2x3("t")]));
    let e = update_todo_item("abc", ress, 0, 3, cell("check", "new"))
        .expect_err("column index 3 is outside a 2x3 grid");
    assert_eq!(e, Error::IndexOutOfBounds);
}

#[test]
fn update_todo_item_with_empty_identifier_is_rejected() {
    let ress = ok_payload(Value::Array(vec![stored_row_2x3("t")]));
    let e = update_todo_item("", ress, 0, 0, cell("check", "new")).expect_err("empty id");
    assert_eq!(e, Error::EmptyIdError);
}

#[test]
fn created_then_fetched_record_comes_back_with_its_identifier() {
    let new = Todo {
        id: None,
        title: "t".to_string(),
        body: vec![vec![cell("text", "hi")]],
    };
    let req = TodoBMC::create("todo", &new).expect("create request");
    assert_eq!(req.sql, "CREATE type::table($tb) CONTENT $data RETURN *");

    // The store assigns the identifier todo:abc123 and later returns the
    // row for a get; only the identifier is new.
    let fetched = Value::Object(Object {
        fields: vec![
            ("id".to_string(), Value::Thing("todo".to_string(), "abc123".to_string())),
            ("title".to_string(), Value::Strand("t".to_string())),
            ("body".to_string(), Value::Array(vec![row_value(vec![cell_value("text", "hi")])])),
        ],
    });
    let o = row_response(ok_payload(Value::Array(vec![fetched]))).expect("one row");
    let got = object_to_todo(&o).expect("the row re-types");
    assert_eq!(got.id, Some("todo:abc123".to_string()));
    assert_eq!(got.title, new.title);
    assert_eq!(got.body, new.body);
}
