//! The exact JSON bodies of the REST endpoints.

use todo_server::api::{
    delete_todo_outcome, edit_action, edit_todo_outcome, healthcheck_body, null_body, render_todo,
    todo_response, todos_response, EditAction,
};
use todo_server::text::{escape_json, i64_to_dec};
use todo_server::todo::Todo;

fn todo(id: i64, description: &str, done: bool) -> Todo {
    Todo { id, description: description.to_string(), done }
}

#[test]
fn healthcheck_fixed_payload() {
    assert_eq!(
        healthcheck_body(),
        "{\"status\":\"success\",\"message\":\"A simple todo list app\"}"
    );
}

#[test]
fn null_body_is_json_null() {
    assert_eq!(null_body(), "null");
}

#[test]
fn render_todo_exact() {
    let t = todo(1, "buy milk", false);
    assert_eq!(render_todo(&t), "{\"id\":1,\"description\":\"buy milk\",\"done\":false}");
}

#[test]
fn render_todo_done_true() {
    let t = todo(7, "water plants", true);
    assert_eq!(render_todo(&t), "{\"id\":7,\"description\":\"water plants\",\"done\":true}");
}

#[test]
fn render_todo_negative_id() {
    let t = todo(-5, "x", false);
    assert_eq!(render_todo(&t), "{\"id\":-5,\"description\":\"x\",\"done\":false}");
}

#[test]
fn todo_response_wraps_object() {
    let t = todo(3, "call home", false);
    assert_eq!(
        todo_response(&t),
        "{\"todo\":{\"id\":3,\"description\":\"call home\",\"done\":false}}"
    );
}

#[test]
fn todos_response_empty() {
    let ts: Vec<Todo> = Vec::new();
    assert_eq!(todos_response(&ts), "{\"todos\":[]}");
}

#[test]
fn todos_response_single() {
    let ts = vec![todo(1, "a", false)];
    assert_eq!(todos_response(&ts), "{\"todos\":[{\"id\":1,\"description\":\"a\",\"done\":false}]}");
}

#[test]
fn todos_response_two_items_comma_separated() {
    let ts = vec![todo(1, "a", false), todo(2, "b", true)];
    assert_eq!(
        todos_response(&ts),
        "{\"todos\":[{\"id\":1,\"description\":\"a\",\"done\":false},{\"id\":2,\"description\":\"b\",\"done\":true}]}"
    );
}

#[test]
fn escape_quotes_and_backslash() {
    assert_eq!(escape_json("a\"b\\c"), "a\\\"b\\\\c");
}

#[test]
fn escape_short_control_escapes() {
    assert_eq!(escape_json("a\nb\tc\rd"), "a\\nb\\tc\\rd");
    assert_eq!(escape_json("\u{8}\u{c}"), "\\b\\f");
}

#[test]
fn escape_other_control_chars_as_hex() {
    assert_eq!(escape_json("\u{1}"), "\\u0001");
    assert_eq!(escape_json("\u{1f}"), "\\u001f");
    assert_eq!(escape_json("\u{0}"), "\\u0000");
}

#[test]
fn escape_leaves_unicode_alone() {
    assert_eq!(escape_json("héllo ☃"), "héllo ☃");
}

#[test]
fn escaped_description_in_body() {
    let t = todo(2, "say \"hi\"\n", false);
    assert_eq!(
        render_todo(&t),
        "{\"id\":2,\"description\":\"say \\\"hi\\\"\\n\",\"done\":false}"
    );
}

#[test]
fn decimal_rendering_edges() {
    assert_eq!(i64_to_dec(0), "0");
    assert_eq!(i64_to_dec(42), "42");
    assert_eq!(i64_to_dec(-7), "-7");
    assert_eq!(i64_to_dec(i64::MAX), "9223372036854775807");
    assert_eq!(i64_to_dec(i64::MIN), "-9223372036854775808");
}

#[test]
fn edit_action_maps_done_flag() {
    assert!(matches!(edit_action(true), EditAction::MarkComplete));
    assert!(matches!(edit_action(false), EditAction::MarkIncomplete));
}

#[test]
fn edit_outcome_success_is_null() {
    let r = edit_todo_outcome(5, true);
    assert_eq!(r.unwrap(), "null");
}

#[test]
fn edit_outcome_no_match_is_not_found() {
    let e = edit_todo_outcome(99999, false).unwrap_err();
    assert_eq!(e.status(), 500);
    assert_eq!(e.body(), "error: no todo with ID '99999' found");
}

#[test]
fn delete_outcome_no_match_is_not_found() {
    let e = delete_todo_outcome(12345, false).unwrap_err();
    assert_eq!(e.status(), 500);
    assert_eq!(e.body(), "error: no todo with ID '12345' found");
}

#[test]
fn delete_outcome_success_is_null() {
    let r = delete_todo_outcome(1, true);
    assert_eq!(r.unwrap(), "null");
}
