use vstd::prelude::*;
use crate::binder::Bindings;
use crate::query::{all_bound, lemma_single_statement, plain_text, name_end, placeholder_name, PreparedQuery};
use crate::decode::{decode_element, decode_records, decoded, QueryResponse};
use crate::error::DecodeError;
use crate::record::extracted_id;
use crate::value::{text_of, Object, Value};

verus! {

/// Creates a task from the content bound to `$data`; the engine assigns the
/// identifier.
pub const CREATE_TASK: &'static str = "CREATE task CONTENT $data";

/// Merges the content bound to `$data` into the record named by `$th`.
pub const MERGE_TASK: &'static str = "UPDATE $th MERGE $data RETURN id";

/// Deletes the record named by `$th`.
pub const DELETE_TASK: &'static str = "DELETE $th";

/// Selects every task.
pub const SELECT_TASKS: &'static str = "SELECT * FROM task";

/// The object holds a task's title, then its priority, and nothing else.
pub open spec fn task_fields(o: Object, title: Seq<char>, priority: i32) -> bool {
    &&& o.wf()
    &&& o.entries().len() == 2
    &&& o.entries()[0].0@ == seq!['t', 'i', 't', 'l', 'e']
    &&& text_of(o.entries()[0].1) == Some(title)
    &&& o.entries()[1].0@ == seq!['p', 'r', 'i', 'o', 'r', 'i', 't', 'y']
    &&& o.entries()[1].1 == Value::Number(priority as i64)
}

/// The value is an object that holds a task's title and priority.
pub open spec fn is_task_content(v: Value, title: Seq<char>, priority: i32) -> bool {
    match v {
        Value::Object(o) => task_fields(o, title, priority),
        _ => false,
    }
}

/// The content of a new task: its title, then its priority.
pub fn task_content(title: &str, priority: i32) -> (r: Object)
    ensures
        task_fields(r, title@, priority),
{
    let mut o = Object::new();
    proof {
        reveal_strlit("title");
        reveal_strlit("priority");
    }
    let title_name = String::from_str("title");
    let priority_name = String::from_str("priority");
    o.push_new(title_name, Value::from_text(title));
    proof {
        assert(o.entries().len() == 1 && o.entries()[0].0@[0] == 't');
        assert(priority_name@[0] == 'p');
    }
    let priority_value = Value::from_i32(priority);
    o.push_new(priority_name, priority_value);
    proof {
        assert(title_name@ =~= seq!['t', 'i', 't', 'l', 'e']);
        assert(priority_name@ =~= seq!['p', 'r', 'i', 'o', 'r', 'i', 't', 'y']);
        assert(o.entries()[0].0@ == title_name@);
        assert(o.entries()[1].0@ == priority_name@);
        assert(text_of(o.entries()[0].1) == Some(title@));
    }
    o
}

/// The bindings of a create: the task's content under `data`.
pub fn create_task_bindings(title: &str, priority: i32) -> (r: Bindings)
    ensures
        r.wf(),
        r.entries().len() == 1,
        r.entries()[0].0@ == seq!['d', 'a', 't', 'a'],
        is_task_content(r.entries()[0].1, title@, priority),
{
    let content = task_content(title, priority);
    let mut b = Bindings::new();
    proof {
        reveal_strlit("data");
    }
    let _ = b.insert(String::from_str("data"), Value::from_object(content));
    b
}

/// The create query for a task, checked and ready to send: its template is
/// one statement and its one placeholder is bound.
pub fn create_task_query(title: &str, priority: i32) -> (r: PreparedQuery)
    ensures
        r.wf(),
        r.template_view() == CREATE_TASK@,
        !r.strict_view(),
        r.statements_view() == 1,
        r.bindings_view().entries().len() == 1,
        r.bindings_view().entries()[0].0@ == seq!['d', 'a', 't', 'a'],
        is_task_content(r.bindings_view().entries()[0].1, title@, priority),
{
    let b = create_task_bindings(title, priority);
    let t = String::from_str(CREATE_TASK);
    proof {
        reveal_strlit("CREATE task CONTENT $data");
        let v = t@;
        assert(v.len() == 25);
        assert(plain_text(v));
        lemma_single_statement(v);
        assert(name_end(v, 25) == 25);
        assert(name_end(v, 24) == 25);
        assert(name_end(v, 23) == 25);
        assert(name_end(v, 22) == 25);
        assert(name_end(v, 21) == 25);
        assert(placeholder_name(v, 20) =~= seq!['d', 'a', 't', 'a']);
        assert(b.entries()[0].0@ == placeholder_name(v, 20));
        assert(b.binds(placeholder_name(v, 20)));
        assert(all_bound(v, b));
    }
    PreparedQuery::assemble(t, b, false, 1)
}

/// What `created_id` yields for the responses of a create.
pub open spec fn created(responses: Seq<QueryResponse>) -> Result<Seq<char>, DecodeError> {
    match decoded(responses) {
        Err(e) => Err(e),
        Ok(items) => if items.len() == 0 {
            Err(DecodeError::MissingId)
        } else {
            match decode_element(items[0]) {
                Err(e) => Err(e),
                Ok(o) => extracted_id(o),
            }
        },
    }
}

/// The identifier of the record that a create returned, as text: the first
/// record of the first response must be an object with an `id`.
pub fn created_id(responses: Vec<QueryResponse>) -> (r: Result<String, DecodeError>)
    ensures
        match created(responses@) {
            Ok(t) => r matches Ok(s) && s@ == t,
            Err(e) => r == Err::<String, DecodeError>(e),
        },
{
    let mut records = decode_records(responses)?;
    match records.next() {
        None => Err(DecodeError::MissingId),
        Some(Err(e)) => Err(e),
        Some(Ok(o)) => o.extract_id(),
    }
}

} // verus!
