use surreal_crud::binder::Bindings;
use surreal_crud::decode::{decode_records, QueryResponse};
use surreal_crud::error::{BindingError, DecodeError, ExecutionError};
use surreal_crud::query::{complete, count_statements, find_unbound, prepare, EngineOutcome};
use surreal_crud::task::{created_id, task_content, CREATE_TASK, DELETE_TASK, MERGE_TASK, SELECT_TASKS};
use surreal_crud::value::{Id, Object, RecordId, Value};

fn response(result: Result<Value, String>) -> QueryResponse {
    QueryResponse { sql: None, time_nanos: 1000, result }
}

fn record(id: &str, fields: Vec<(&str, Value)>) -> Object {
    let mut pairs = vec![(
        "id".to_string(),
        Value::Thing(RecordId { tb: "task".to_string(), id: Id::String(id.to_string()) }),
    )];
    for (k, v) in fields {
        pairs.push((k.to_string(), v));
    }
    Object::from_pairs(pairs).unwrap()
}

#[test]
fn bool_round_trip() {
    assert_eq!(Value::from_bool(true).as_bool(), Some(true));
    assert_eq!(Value::from_bool(false).as_bool(), Some(false));
}

#[test]
fn integer_round_trip() {
    assert_eq!(Value::from_i64(i64::MIN).as_i64(), Some(i64::MIN));
    assert_eq!(Value::from_i32(-7).as_i32(), Some(-7));
    assert_eq!(Value::from_i32(i32::MAX).as_i32(), Some(i32::MAX));
}

#[test]
fn narrowing_fails_instead_of_truncating() {
    assert_eq!(Value::from_i64(1 << 40).as_i32(), None);
    assert_eq!(Value::from_i64(-(1 << 40)).as_i32(), None);
    assert_eq!(Value::from_i64(-1).as_u64(), None);
    assert_eq!(Value::from_u64(u64::MAX), None);
    assert_eq!(Value::from_u64(42).unwrap().as_u64(), Some(42));
}

#[test]
fn text_round_trip() {
    assert_eq!(Value::from_text("Task 01").as_text().map(|s| s.as_str()), Some("Task 01"));
    assert_eq!(Value::from_bool(true).as_text(), None);
    assert_eq!(Value::from_text("x").as_bool(), None);
}

#[test]
fn array_and_object_keep_order() {
    let v = Value::from_vec(vec![Value::from_i64(3), Value::from_i64(1), Value::from_i64(2)]);
    assert_eq!(v, Value::Array(vec![Value::Number(3), Value::Number(1), Value::Number(2)]));
    let o = Object::from_pairs(vec![
        ("z".to_string(), Value::Null),
        ("a".to_string(), Value::Bool(true)),
    ])
    .unwrap();
    let pairs = o.into_pairs();
    assert_eq!(pairs[0].0, "z");
    assert_eq!(pairs[1].0, "a");
}

#[test]
fn duplicate_binding_is_refused() {
    let r = Bindings::bind(vec![
        ("th".to_string(), Value::Number(1)),
        ("data".to_string(), Value::Null),
        ("th".to_string(), Value::Number(2)),
    ]);
    assert_eq!(r.unwrap_err(), BindingError::DuplicateBinding("th".to_string()));
}

#[test]
fn distinct_bindings_are_accepted() {
    let b = Bindings::bind(vec![
        ("th".to_string(), Value::Number(1)),
        ("data".to_string(), Value::Null),
    ])
    .unwrap();
    assert_eq!(b.len(), 2);
    assert_eq!(b.get("th"), Some(&Value::Number(1)));
    assert_eq!(b.get("other"), None);
}

#[test]
fn insert_refuses_a_bound_name() {
    let mut b = Bindings::new();
    assert!(b.insert("a".to_string(), Value::Number(1)).is_ok());
    assert_eq!(
        b.insert("a".to_string(), Value::Number(2)),
        Err(BindingError::DuplicateBinding("a".to_string()))
    );
    assert_eq!(b.get("a"), Some(&Value::Number(1)));
}

#[test]
fn statements_are_counted() {
    assert_eq!(count_statements(CREATE_TASK), 1);
    assert_eq!(count_statements("SELECT * FROM a; SELECT * FROM b"), 2);
    assert_eq!(count_statements("SELECT * FROM a;"), 1);
    assert_eq!(count_statements(" ; ;\n"), 0);
    assert_eq!(count_statements(""), 0);
}

#[test]
fn unbound_placeholder_is_found() {
    let b = Bindings::bind(vec![("data".to_string(), Value::Null)]).unwrap();
    assert_eq!(find_unbound(MERGE_TASK, &b), Some("th".to_string()));
    assert_eq!(find_unbound(CREATE_TASK, &b), None);
    assert_eq!(find_unbound("SELECT $ FROM t", &b), None);
}

#[test]
fn prepare_checks_before_sending() {
    let b = Bindings::bind(vec![("data".to_string(), Value::Null)]).unwrap();
    match prepare(MERGE_TASK.to_string(), b, true) {
        Err(ExecutionError::Binding(BindingError::UnboundPlaceholder(n))) => assert_eq!(n, "th"),
        other => panic!("unexpected {:?}", other),
    }
    assert_eq!(prepare(" ".to_string(), Bindings::new(), false).unwrap_err(), ExecutionError::EmptyTemplate);
    let q = prepare("SELECT * FROM a; SELECT * FROM b".to_string(), Bindings::new(), true).unwrap();
    assert_eq!(q.statements(), 2);
    assert!(q.strict());
}

#[test]
fn one_response_per_statement() {
    let q = prepare("SELECT * FROM a; SELECT * FROM b".to_string(), Bindings::new(), false).unwrap();
    let two = vec![response(Ok(Value::Array(vec![]))), response(Ok(Value::Array(vec![])))];
    assert_eq!(complete(&q, EngineOutcome::Answered(two)).unwrap().len(), 2);
    let one = vec![response(Ok(Value::Array(vec![])))];
    assert_eq!(
        complete(&q, EngineOutcome::Answered(one)).unwrap_err(),
        ExecutionError::Incomplete { requested: 2, produced: 1 }
    );
    assert_eq!(
        complete(&q, EngineOutcome::ConnectionFailed("down".to_string())).unwrap_err(),
        ExecutionError::Connection("down".to_string())
    );
    assert_eq!(
        complete(&q, EngineOutcome::Rejected("parse".to_string())).unwrap_err(),
        ExecutionError::Engine("parse".to_string())
    );
}

#[test]
fn malformed_element_does_not_stop_decoding() {
    let obj = record("a", vec![("title", Value::from_text("Task 01"))]);
    let rs = vec![response(Ok(Value::Array(vec![Value::Object(obj), Value::Number(5)])))];
    let out = decode_records(rs).unwrap().collect_all();
    assert_eq!(out.len(), 2);
    assert!(out[0].is_ok());
    assert_eq!(out[1], Err(DecodeError::ElementNotObject));
}

#[test]
fn stream_hands_out_each_element_once() {
    let rs = vec![response(Ok(Value::Array(vec![Value::Number(1), Value::Object(Object::new())])))];
    let mut s = decode_records(rs).unwrap();
    assert_eq!(s.len(), 2);
    assert_eq!(s.next(), Some(Err(DecodeError::ElementNotObject)));
    assert_eq!(s.next(), Some(Ok(Object::new())));
    assert_eq!(s.next(), None);
    assert_eq!(s.len(), 0);
}

#[test]
fn decode_errors() {
    assert_eq!(decode_records(vec![]).unwrap_err(), DecodeError::EmptyResponse);
    assert_eq!(
        decode_records(vec![response(Err("bad query".to_string()))]).unwrap_err(),
        DecodeError::Upstream("bad query".to_string())
    );
    assert_eq!(
        decode_records(vec![response(Ok(Value::Number(1)))]).unwrap_err(),
        DecodeError::UnexpectedShape
    );
    assert_eq!(decode_records(vec![response(Ok(Value::Null))]).unwrap_err(), DecodeError::UnexpectedShape);
}

#[test]
fn only_the_first_response_is_decoded() {
    let rs = vec![
        response(Ok(Value::Array(vec![Value::Number(1)]))),
        response(Ok(Value::Array(vec![Value::Number(2), Value::Number(3)]))),
    ];
    assert_eq!(decode_records(rs).unwrap().len(), 1);
}

#[test]
fn empty_table_is_an_empty_record_set() {
    let s = decode_records(vec![response(Ok(Value::Array(vec![])))]).unwrap();
    assert_eq!(s.len(), 0);
    assert!(s.collect_all().is_empty());
}

#[test]
fn extract_id_renders_table_and_identifier() {
    let r = record("abc123", vec![]);
    assert_eq!(r.extract_id().unwrap(), "task:abc123");
}

#[test]
fn numeric_and_generated_identifiers() {
    let n = RecordId { tb: "task".to_string(), id: Id::Number(-1203) };
    assert_eq!(n.to_text(), "task:-1203");
    let z = RecordId { tb: "t".to_string(), id: Id::Number(0) };
    assert_eq!(z.to_text(), "t:0");
    let m = RecordId { tb: "t".to_string(), id: Id::Number(i64::MIN) };
    assert_eq!(m.to_text(), "t:-9223372036854775808");
    let g = RecordId { tb: "person".to_string(), id: Id::Generated("7333tvxt6g7r2gvkog5e".to_string()) };
    assert_eq!(g.to_text(), "person:7333tvxt6g7r2gvkog5e");
}

#[test]
fn missing_id_is_an_error() {
    let o = Object::from_pairs(vec![("id".to_string(), Value::from_text("task:1"))]).unwrap();
    assert_eq!(o.extract_id(), Err(DecodeError::MissingId));
    assert_eq!(Object::new().extract_id(), Err(DecodeError::MissingId));
}

#[test]
fn absent_field_is_none() {
    let o = record("a", vec![("priority", Value::Number(10))]);
    assert_eq!(o.get("priority"), Some(&Value::Number(10)));
    assert_eq!(o.get("done"), None);
}

#[test]
fn create_merge_delete_workflow() {
    // create: the content and the bindings that carry it
    let content = task_content("Task 01", 10);
    assert_eq!(content.get("title"), Some(&Value::Strand("Task 01".to_string())));
    assert_eq!(content.get("priority"), Some(&Value::Number(10)));
    let b = Bindings::bind(vec![("data".to_string(), Value::Object(content))]).unwrap();
    let q = prepare(CREATE_TASK.to_string(), b, false).unwrap();
    assert_eq!(q.statements(), 1);
    let created = record("h7n2wijjwecab6jh1uwa", vec![
        ("priority", Value::Number(10)),
        ("title", Value::from_text("Task 01")),
    ]);
    let rs = complete(&q, EngineOutcome::Answered(vec![response(Ok(Value::Array(vec![Value::Object(created)])))]))
        .unwrap();
    let id = created_id(rs).unwrap();
    assert_eq!(id, "task:h7n2wijjwecab6jh1uwa");

    // merge: the captured id is bound again
    let data = Object::from_pairs(vec![
        ("title".to_string(), Value::from_text("Task 01 UPDATED")),
        ("done".to_string(), Value::from_bool(true)),
    ])
    .unwrap();
    let b = Bindings::bind(vec![
        ("th".to_string(), surreal_crud::record::record_id_param(&id).unwrap()),
        ("data".to_string(), Value::Object(data)),
    ])
    .unwrap();
    assert!(prepare(MERGE_TASK.to_string(), b, true).is_ok());
    let merged = record("h7n2wijjwecab6jh1uwa", vec![
        ("done", Value::Bool(true)),
        ("priority", Value::Number(10)),
        ("title", Value::from_text("Task 01 UPDATED")),
    ]);
    let mut s = decode_records(vec![response(Ok(Value::Array(vec![Value::Object(merged)])))]).unwrap();
    let rec = s.next().unwrap().unwrap();
    assert_eq!(rec.get("title"), Some(&Value::Strand("Task 01 UPDATED".to_string())));
    assert_eq!(rec.get("done"), Some(&Value::Bool(true)));
    assert_eq!(rec.get("priority"), Some(&Value::Number(10)));
    assert_eq!(rec.extract_id().unwrap(), id);

    // delete, then select: nothing matches
    let th = surreal_crud::record::record_id_param(&id).unwrap();
    assert_eq!(
        th,
        Value::Thing(RecordId { tb: "task".to_string(), id: Id::String("h7n2wijjwecab6jh1uwa".to_string()) })
    );
    let b = Bindings::bind(vec![("th".to_string(), th)]).unwrap();
    assert!(prepare(DELETE_TASK.to_string(), b, true).is_ok());
    let q = prepare(SELECT_TASKS.to_string(), Bindings::new(), false).unwrap();
    let rs = complete(&q, EngineOutcome::Answered(vec![response(Ok(Value::Array(vec![])))])).unwrap();
    assert_eq!(decode_records(rs).unwrap().len(), 0);
}

#[test]
fn created_id_needs_a_record() {
    let empty = vec![response(Ok(Value::Array(vec![])))];
    assert_eq!(created_id(empty), Err(DecodeError::MissingId));
    let not_obj = vec![response(Ok(Value::Array(vec![Value::Null])))];
    assert_eq!(created_id(not_obj), Err(DecodeError::ElementNotObject));
}

#[test]
fn identifier_text_binds_again() {
    assert_eq!(
        surreal_crud::record::record_id_param("task:abc123"),
        Some(Value::Thing(RecordId { tb: "task".to_string(), id: Id::String("abc123".to_string()) }))
    );
    assert_eq!(
        surreal_crud::record::record_id_param("task:42"),
        Some(Value::Thing(RecordId { tb: "task".to_string(), id: Id::Number(42) }))
    );
    assert_eq!(surreal_crud::record::record_id_param(""), None);
    assert_eq!(surreal_crud::record::record_id_param("not an id"), None);
}

#[test]
fn extracted_id_round_trips_through_the_parser() {
    let r = record("fus0lf2necavwiy8oozc", vec![]);
    let text = r.extract_id().unwrap();
    let again = surreal_crud::record::record_id_param(&text).unwrap();
    assert_eq!(again, *r.get("id").unwrap());
}

#[test]
fn create_task_query_is_ready_to_send() {
    let q = surreal_crud::task::create_task_query("Task 01", 10);
    assert_eq!(q.template(), CREATE_TASK);
    assert_eq!(q.statements(), 1);
    assert!(!q.strict());
    let data = q.bindings().get("data").unwrap().as_object().unwrap();
    assert_eq!(data.get("title"), Some(&Value::Strand("Task 01".to_string())));
    assert_eq!(data.get("priority"), Some(&Value::Number(10)));
    assert_eq!(data.len(), 2);
}

#[test]
fn quoted_semicolons_separate_nothing() {
    assert_eq!(count_statements("CREATE task SET title = 'a;b'"), 1);
    assert_eq!(count_statements("SELECT 'it\\'s;'; SELECT 1"), 2);
    assert_eq!(count_statements("SELECT \"x;y\" ; SELECT ';'"), 2);
    assert_eq!(count_statements("SELECT \"unclosed;"), 1);
}

#[test]
fn comments_are_not_statements() {
    assert_eq!(count_statements("SELECT * FROM a; -- note"), 1);
    assert_eq!(count_statements("SELECT * FROM a; # note; more"), 1);
    assert_eq!(count_statements("SELECT * FROM a; // note\nSELECT 1"), 2);
    assert_eq!(count_statements("/* a; b */ SELECT 1; /* c */"), 1);
    assert_eq!(count_statements("/*/ x; */ SELECT 1"), 1);
    assert_eq!(count_statements("SELECT 1 - 2; SELECT 4 / 2"), 2);
    assert_eq!(count_statements("-- only a comment"), 0);
}

#[test]
fn identifier_text_is_escaped_as_the_datastore_writes_it() {
    let s = RecordId { tb: "task".to_string(), id: Id::String("42".to_string()) };
    assert_eq!(s.to_text(), "task:\u{27E8}42\u{27E9}");
    let n = RecordId { tb: "task".to_string(), id: Id::Number(42) };
    assert_eq!(n.to_text(), "task:42");
    assert_ne!(s.to_text(), n.to_text());
    let dash = RecordId { tb: "task".to_string(), id: Id::String("a-b".to_string()) };
    assert_eq!(dash.to_text(), "task:\u{27E8}a-b\u{27E9}");
    let close = RecordId { tb: "task".to_string(), id: Id::String("x\u{27E9}y".to_string()) };
    assert_eq!(close.to_text(), "task:\u{27E8}x\\\u{27E9}y\u{27E9}");
    let empty = RecordId { tb: "task".to_string(), id: Id::String(String::new()) };
    assert_eq!(empty.to_text(), "task:\u{27E8}\u{27E9}");
    let table = RecordId { tb: "my table".to_string(), id: Id::String("a1".to_string()) };
    assert_eq!(table.to_text(), "\u{27E8}my table\u{27E9}:a1");
}

#[test]
fn escaped_identifiers_read_back_unchanged() {
    for id in [Id::String("42".to_string()), Id::String("a-b".to_string()), Id::Number(42), Id::Number(-7)] {
        let r = RecordId { tb: "task".to_string(), id };
        let text = r.to_text();
        let back = surreal_crud::record::record_id_param(&text).unwrap();
        assert_eq!(back, Value::Thing(r));
    }
}

#[test]
fn created_id_of_a_numeric_string_is_bracketed() {
    let rec = Object::from_pairs(vec![(
        "id".to_string(),
        Value::Thing(RecordId { tb: "task".to_string(), id: Id::String("42".to_string()) }),
    )])
    .unwrap();
    let rs = vec![response(Ok(Value::Array(vec![Value::Object(rec)])))];
    assert_eq!(created_id(rs).unwrap(), "task:\u{27E8}42\u{27E9}");
}

#[test]
fn strict_batches_run_in_one_transaction() {
    let strict = prepare("DELETE a; DELETE b".to_string(), Bindings::new(), true).unwrap();
    assert_eq!(strict.engine_text(), "BEGIN TRANSACTION;\nDELETE a; DELETE b\n;COMMIT TRANSACTION;");
    assert_eq!(count_statements(&strict.engine_text()), 4);
    let loose = prepare("DELETE a".to_string(), Bindings::new(), false).unwrap();
    assert_eq!(loose.engine_text(), "DELETE a");
}
