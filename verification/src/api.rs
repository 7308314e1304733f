//! The REST surface: the exact JSON body of each endpoint and the decision
//! each handler takes once the storage layer has answered.

use vstd::prelude::*;
use vstd::string::*;
use crate::error::{not_found_text, AppError};
use crate::store::rows_of;
use crate::text::{dec_int, escape_json, escaped, i64_to_dec};
use crate::todo::{Todo, TodoView};

verus! {

/// The JSON rendering of the done flag.
pub open spec fn bool_text(b: bool) -> Seq<char> {
    if b {
        "true"@
    } else {
        "false"@
    }
}

/// The JSON object for one todo: id, description and done, in that order.
pub open spec fn todo_json(t: TodoView) -> Seq<char> {
    "{\"id\":"@ + dec_int(t.id) + ",\"description\":\""@ + escaped(t.description)
        + "\",\"done\":"@ + bool_text(t.done) + "}"@
}

/// The JSON array of todos, in storage order, comma-separated.
pub open spec fn todos_json(ts: Seq<TodoView>) -> Seq<char>
    decreases ts.len(),
{
    if ts.len() == 0 {
        Seq::empty()
    } else if ts.len() == 1 {
        todo_json(ts[0])
    } else {
        todos_json(ts.drop_last()) + seq![','] + todo_json(ts.last())
    }
}

/// The fixed success body of the healthcheck endpoint.
pub open spec fn healthcheck_text() -> Seq<char> {
    "{\"status\":\"success\",\"message\":\"A simple todo list app\"}"@
}

/// The success body wrapping one todo.
pub open spec fn todo_response_text(t: TodoView) -> Seq<char> {
    "{\"todo\":"@ + todo_json(t) + "}"@
}

/// The success body of the list endpoint.
pub open spec fn todos_response_text(ts: Seq<TodoView>) -> Seq<char> {
    "{\"todos\":["@ + todos_json(ts) + "]}"@
}

/// Render one todo as its JSON object.
pub fn render_todo(t: &Todo) -> (r: String)
    ensures
        r@ == todo_json(t@),
{
    let mut s = String::from_str("{\"id\":");
    let idtxt = i64_to_dec(t.id);
    s.append(idtxt.as_str());
    s.append(",\"description\":\"");
    let desc = escape_json(t.description.as_str());
    s.append(desc.as_str());
    s.append("\",\"done\":");
    if t.done {
        s.append("true");
    } else {
        s.append("false");
    }
    s.append("}");
    proof {
        assert(s@ =~= todo_json(t@));
    }
    s
}

/// The body answering a successful create or single get.
pub fn todo_response(t: &Todo) -> (r: String)
    ensures
        r@ == todo_response_text(t@),
{
    let mut s = String::from_str("{\"todo\":");
    let item = render_todo(t);
    s.append(item.as_str());
    s.append("}");
    proof {
        assert(s@ =~= todo_response_text(t@));
    }
    s
}

/// The body answering a list request: every row, in the order given.
pub fn todos_response(ts: &Vec<Todo>) -> (r: String)
    ensures
        r@ == todos_response_text(rows_of(ts@)),
{
    let ghost rows = rows_of(ts@);
    let mut s = String::from_str("{\"todos\":[");
    let mut i: usize = 0;
    while i < ts.len()
        invariant
            rows == rows_of(ts@),
            i <= ts@.len(),
            s@ == "{\"todos\":["@ + todos_json(rows.take(i as int)),
        decreases ts@.len() - i,
    {
        if i > 0 {
            s.append(",");
        }
        let item = render_todo(&ts[i]);
        s.append(item.as_str());
        proof {
            reveal_strlit(",");
            assert(rows.take(i as int + 1).drop_last() =~= rows.take(i as int));
            assert(rows.take(i as int + 1).last() == ts@[i as int]@);
            assert(s@ =~= "{\"todos\":["@ + todos_json(rows.take(i as int + 1)));
        }
        i += 1;
    }
    s.append("]}");
    proof {
        assert(rows.take(ts@.len() as int) =~= rows);
        assert(s@ =~= todos_response_text(rows));
    }
    s
}

/// The healthcheck body: fixed, read from no state at all.
pub fn healthcheck_body() -> (r: String)
    ensures
        r@ == healthcheck_text(),
{
    String::from_str("{\"status\":\"success\",\"message\":\"A simple todo list app\"}")
}

/// The body of the JSON `null` that the edit and delete endpoints return on
/// success.
pub fn null_body() -> (r: String)
    ensures
        r@ == "null"@,
{
    String::from_str("null")
}

/// Which storage update an edit request asks for.
pub enum EditAction {
    MarkComplete,
    MarkIncomplete,
}

/// An edit with done = true asks to mark complete; done = false, incomplete.
pub fn edit_action(done: bool) -> (r: EditAction)
    ensures
        (r is MarkComplete) <==> done,
{
    if done {
        EditAction::MarkComplete
    } else {
        EditAction::MarkIncomplete
    }
}

/// Conclude an edit: when the update matched a row, the body is JSON null;
/// when it matched none, the not-found error for the requested id.
pub fn edit_todo_outcome(id: i64, matched: bool) -> (r: Result<String, AppError>)
    ensures
        match r {
            Ok(body) => matched && body@ == "null"@,
            Err(e) => !matched && e@ == seq![not_found_text(id as int)],
        },
{
    if matched {
        Ok(null_body())
    } else {
        Err(AppError::not_found(id))
    }
}

/// Conclude a delete: the same decision as an edit.
pub fn delete_todo_outcome(id: i64, matched: bool) -> (r: Result<String, AppError>)
    ensures
        match r {
            Ok(body) => matched && body@ == "null"@,
            Err(e) => !matched && e@ == seq![not_found_text(id as int)],
        },
{
    if matched {
        Ok(null_body())
    } else {
        Err(AppError::not_found(id))
    }
}

} // verus!
