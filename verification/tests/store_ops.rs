//! The table semantics: creation, listing, toggling and deletion.

use todo_server::api::{delete_todo_outcome, edit_todo_outcome};
use todo_server::error::AppError;
use todo_server::store::TodoStore;

#[test]
fn create_roundtrip() {
    let mut store = TodoStore::new();
    let t = store.create("buy milk");
    assert_eq!(t.id, 1);
    assert_eq!(t.description, "buy milk");
    assert!(!t.done);
    assert!(t.id >= 0);
    let back = store.get(t.id).unwrap();
    assert_eq!(back.id, t.id);
    assert_eq!(back.description, t.description);
    assert_eq!(back.done, t.done);
}

#[test]
fn list_is_ordered_by_ascending_id() {
    let mut store = TodoStore::new();
    store.create("first");
    store.create("second");
    store.create("third");
    let all = store.all();
    let ids: Vec<i64> = all.iter().map(|t| t.id).collect();
    assert_eq!(ids, vec![1, 2, 3]);
    assert_eq!(all[0].description, "first");
    assert_eq!(all[2].description, "third");
}

#[test]
fn marking_complete_twice_is_idempotent() {
    let mut store = TodoStore::new();
    let t = store.create("laundry");
    assert!(store.mark_complete(t.id));
    assert!(store.mark_complete(t.id));
    assert!(store.get(t.id).unwrap().done);
    assert!(store.mark_incomplete(t.id));
    assert!(!store.get(t.id).unwrap().done);
}

#[test]
fn marking_a_missing_id_reports_no_match() {
    let mut store = TodoStore::new();
    assert!(!store.mark_complete(99999));
    assert!(!store.mark_incomplete(99999));
}

#[test]
fn edit_of_missing_id_renders_not_found() {
    let mut store = TodoStore::new();
    let matched = store.mark_complete(99999);
    let e = edit_todo_outcome(99999, matched).unwrap_err();
    assert_eq!(e.status(), 500);
    assert!(e.body().contains("no todo with ID '99999' found"));
}

#[test]
fn delete_of_missing_id_renders_not_found() {
    let mut store = TodoStore::new();
    let matched = store.delete(99999);
    let e = delete_todo_outcome(99999, matched).unwrap_err();
    assert_eq!(e.status(), 500);
    assert!(e.body().contains("no todo with ID '99999' found"));
}

#[test]
fn delete_removes_exactly_one_row() {
    let mut store = TodoStore::new();
    let a = store.create("keep me");
    let b = store.create("remove me");
    let c = store.create("keep me too");
    assert!(store.delete(b.id));
    let all = store.all();
    let ids: Vec<i64> = all.iter().map(|t| t.id).collect();
    assert_eq!(ids, vec![a.id, c.id]);
    let e = store.get(b.id).unwrap_err();
    assert_eq!(
        e.body(),
        "error: no rows returned by a query that expected to return at least one row"
    );
    assert!(!store.delete(b.id));
}

#[test]
fn two_creates_get_distinct_ids() {
    let mut store = TodoStore::new();
    let t1 = store.create("one");
    let t2 = store.create("two");
    assert_ne!(t1.id, t2.id);
    let all = store.all();
    assert!(all.iter().any(|t| t.id == t1.id));
    assert!(all.iter().any(|t| t.id == t2.id));
}

#[test]
fn done_updates_touch_only_the_target_row() {
    let mut store = TodoStore::new();
    let a = store.create("a");
    let b = store.create("b");
    assert!(store.mark_complete(b.id));
    assert!(!store.get(a.id).unwrap().done);
    assert!(store.get(b.id).unwrap().done);
    assert_eq!(store.get(b.id).unwrap().description, "b");
}

#[test]
fn error_chain_joins_causes() {
    let e = AppError::from_causes(vec![
        "outer".to_string(),
        "middle".to_string(),
        "inner".to_string(),
    ]);
    assert_eq!(e.status(), 500);
    assert_eq!(e.body(), "error: outer; middle; inner");
}

#[test]
fn single_cause_error_body() {
    let e = AppError::new("database gone".to_string());
    assert_eq!(e.body(), "error: database gone");
}

#[test]
fn not_found_handles_negative_ids() {
    let e = AppError::not_found(-1);
    assert_eq!(e.body(), "error: no todo with ID '-1' found");
}
