//! The dispatch table, and the quirk that the item path segment is ignored.

use todo_server::routes::{is_todo_item_path, match_route, text_eq, Endpoint, Method};

#[test]
fn fixed_paths_dispatch() {
    assert_eq!(match_route(Method::Get, "/api/healthcheck"), Some(Endpoint::Healthcheck));
    assert_eq!(match_route(Method::Post, "/api/healthcheck"), None);
    assert_eq!(match_route(Method::Post, "/api/todos"), Some(Endpoint::CreateTodo));
    assert_eq!(match_route(Method::Get, "/api/todos"), Some(Endpoint::ListTodos));
    assert_eq!(match_route(Method::Delete, "/api/todos"), None);
}

#[test]
fn item_paths_dispatch_by_method() {
    assert_eq!(match_route(Method::Get, "/api/todos/5"), Some(Endpoint::GetTodo));
    assert_eq!(match_route(Method::Patch, "/api/todos/5"), Some(Endpoint::EditTodo));
    assert_eq!(match_route(Method::Delete, "/api/todos/5"), Some(Endpoint::DeleteTodo));
    assert_eq!(match_route(Method::Post, "/api/todos/5"), None);
}

#[test]
fn item_path_segment_does_not_matter() {
    assert_eq!(
        match_route(Method::Patch, "/api/todos/1"),
        match_route(Method::Patch, "/api/todos/99999"),
    );
    assert_eq!(match_route(Method::Get, "/api/todos/anything"), Some(Endpoint::GetTodo));
}

#[test]
fn malformed_paths_do_not_dispatch() {
    assert_eq!(match_route(Method::Get, "/api/todos/"), None);
    assert_eq!(match_route(Method::Get, "/api/todos/5/6"), None);
    assert_eq!(match_route(Method::Get, "/other"), None);
    assert_eq!(match_route(Method::Get, ""), None);
}

#[test]
fn item_path_recognition() {
    assert!(is_todo_item_path("/api/todos/123"));
    assert!(is_todo_item_path("/api/todos/x"));
    assert!(!is_todo_item_path("/api/todos"));
    assert!(!is_todo_item_path("/api/todos/"));
    assert!(!is_todo_item_path("/api/todos/1/2"));
}

#[test]
fn text_eq_compares_characters() {
    assert!(text_eq("abc", "abc"));
    assert!(!text_eq("abc", "abd"));
    assert!(!text_eq("abc", "abcd"));
    assert!(text_eq("", ""));
}
