//! The persisted to-do record.

use vstd::prelude::*;

verus! {

/// The mathematical value of a to-do record.
pub struct TodoView {
    pub id: int,
    pub description: Seq<char>,
    pub done: bool,
}

/// A single todo from the database.
#[derive(Debug)]
pub struct Todo {
    /// The ID of the TODO.
    pub id: i64,
    /// The description of the TODO.
    pub description: String,
    /// Whether the TODO is done.
    pub done: bool,
}

impl View for Todo {
    type V = TodoView;

    open spec fn view(&self) -> TodoView {
        TodoView { id: self.id as int, description: self.description@, done: self.done }
    }
}

impl Clone for Todo {
    /// A clone carries the same id, description and done flag.
    fn clone(&self) -> (r: Self)
        ensures
            r@ == self@,
    {
        Todo { id: self.id, description: self.description.clone(), done: self.done }
    }
}

} // verus!
