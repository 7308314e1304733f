//! The semantics of the todos table: what each CRUD operation returns and how
//! it changes the stored rows. `TodoStore` is the in-memory form of the
//! table; its contracts are what the service relies on of the storage layer.

use vstd::prelude::*;
use vstd::string::*;
use crate::error::AppError;
use crate::todo::{Todo, TodoView};

verus! {

/// The message with which a single-row fetch reports that no row matched.
pub open spec fn no_rows_text() -> Seq<char> {
    "no rows returned by a query that expected to return at least one row"@
}

/// The rows a vector of records stands for, in storage order.
pub open spec fn rows_of(todos: Seq<Todo>) -> Seq<TodoView> {
    todos.map_values(|t: Todo| t@)
}

/// Whether some row carries the given id.
pub open spec fn contains_id(rows: Seq<TodoView>, id: int) -> bool {
    exists|k: int| 0 <= k < rows.len() && rows[k].id == id
}

/// The first row carrying the given id, if any.
pub open spec fn lookup(rows: Seq<TodoView>, id: int) -> Option<TodoView>
    decreases rows.len(),
{
    if rows.len() == 0 {
        None
    } else if rows[0].id == id {
        Some(rows[0])
    } else {
        lookup(rows.drop_first(), id)
    }
}

/// Row ids strictly increase in storage order.
pub open spec fn sorted_by_id(rows: Seq<TodoView>) -> bool {
    forall|i: int, j: int| 0 <= i < j < rows.len() ==> rows[i].id < rows[j].id
}

/// One row as it stands after an update of the done flag aimed at an id.
pub open spec fn marked_row(t: TodoView, id: int, done: bool) -> TodoView {
    if t.id == id {
        TodoView { id: t.id, description: t.description, done }
    } else {
        t
    }
}

/// How the table changes under an update of the done flag: the row with the
/// id gets the new flag, every other row stays as it was.
pub open spec fn marked(rows: Seq<TodoView>, rows1: Seq<TodoView>, id: int, done: bool) -> bool {
    rows1 == rows.map_values(|t: TodoView| marked_row(t, id, done))
}

/// How the table changes under one successful creation.
pub open spec fn created(
    rows: Seq<TodoView>,
    next: int,
    rows1: Seq<TodoView>,
    next1: int,
    t: TodoView,
) -> bool {
    &&& t.id == next
    &&& !t.done
    &&& rows1 == rows.push(t)
    &&& next1 == next + 1
}

proof fn lemma_lookup_absent(rows: Seq<TodoView>, id: int)
    requires
        forall|k: int| 0 <= k < rows.len() ==> rows[k].id != id,
    ensures
        lookup(rows, id) is None,
    decreases rows.len(),
{
    if rows.len() > 0 {
        lemma_lookup_absent(rows.drop_first(), id);
    }
}

proof fn lemma_lookup_at(rows: Seq<TodoView>, i: int, id: int)
    requires
        0 <= i < rows.len(),
        rows[i].id == id,
        forall|k: int| 0 <= k < i ==> rows[k].id != id,
    ensures
        lookup(rows, id) == Some(rows[i]),
    decreases i,
{
    if i > 0 {
        lemma_lookup_at(rows.drop_first(), i - 1, id);
    }
}

proof fn lemma_lookup_push_new(rows: Seq<TodoView>, t: TodoView)
    requires
        forall|k: int| 0 <= k < rows.len() ==> rows[k].id != t.id,
    ensures
        lookup(rows.push(t), t.id) == Some(t),
    decreases rows.len(),
{
    if rows.len() == 0 {
        assert(rows.push(t)[0] == t);
    } else {
        assert(rows.push(t).drop_first() =~= rows.drop_first().push(t));
        lemma_lookup_push_new(rows.drop_first(), t);
    }
}

proof fn lemma_lookup_remove(rows: Seq<TodoView>, idx: int)
    requires
        sorted_by_id(rows),
        0 <= idx < rows.len(),
    ensures
        lookup(rows.remove(idx), rows[idx].id) is None,
        forall|j: int| j != rows[idx].id ==> lookup(rows.remove(idx), j) == lookup(rows, j),
    decreases rows.len(),
{
    if idx == 0 {
        assert(rows.remove(0) =~= rows.drop_first());
        assert forall|k: int| 0 <= k < rows.drop_first().len() implies rows.drop_first()[k].id
            != rows[0].id by {
            assert(rows.drop_first()[k] == rows[k + 1]);
        }
        lemma_lookup_absent(rows.drop_first(), rows[0].id);
        assert forall|j: int| j != rows[0].id implies lookup(rows.remove(0), j) == lookup(
            rows,
            j,
        ) by {
            assert(lookup(rows, j) == lookup(rows.drop_first(), j));
        }
    } else {
        let rest = rows.drop_first();
        assert(sorted_by_id(rest)) by {
            assert forall|i: int, j: int| 0 <= i < j < rest.len() implies rest[i].id
                < rest[j].id by {
                assert(rest[i] == rows[i + 1]);
                assert(rest[j] == rows[j + 1]);
            }
        }
        assert(rows.remove(idx).drop_first() =~= rest.remove(idx - 1));
        assert(rest[idx - 1] == rows[idx]);
        lemma_lookup_remove(rest, idx - 1);
        assert(rows.remove(idx)[0] == rows[0]);
        assert(rows[0].id != rows[idx].id);
        assert(lookup(rows.remove(idx), rows[idx].id) == lookup(
            rest.remove(idx - 1),
            rows[idx].id,
        ));
        assert forall|j: int| j != rows[idx].id implies lookup(rows.remove(idx), j) == lookup(
            rows,
            j,
        ) by {
            if j == rows[0].id {
                assert(lookup(rows, j) == Some(rows[0]));
                assert(lookup(rows.remove(idx), j) == Some(rows[0]));
            } else {
                assert(lookup(rows, j) == lookup(rest, j));
                assert(lookup(rows.remove(idx), j) == lookup(rest.remove(idx - 1), j));
            }
        }
    }
}

/// An in-memory todos table: rows ordered by ascending id, and the id the
/// next insertion will be assigned.
pub struct TodoStore {
    todos: Vec<Todo>,
    next_id: i64,
}

impl View for TodoStore {
    type V = Seq<TodoView>;

    closed spec fn view(&self) -> Seq<TodoView> {
        rows_of(self.todos@)
    }
}

impl TodoStore {
    /// The id the next created row will be assigned.
    pub closed spec fn next_id_spec(&self) -> int {
        self.next_id as int
    }

    /// The table's invariant: rows sorted by strictly ascending id, every id
    /// at least 1 and below the next id to assign.
    pub closed spec fn wf(&self) -> bool {
        &&& sorted_by_id(self@)
        &&& forall|k: int| 0 <= k < self@.len() ==> 1 <= #[trigger] self@[k].id < self.next_id as int
        &&& 1 <= self.next_id
    }

    /// A fresh, empty table; its first created row will get id 1.
    pub fn new() -> (r: TodoStore)
        ensures
            r@ == Seq::<TodoView>::empty(),
            r.wf(),
            r.next_id_spec() == 1,
    {
        let r = TodoStore { todos: Vec::new(), next_id: 1 };
        proof {
            assert(r@ =~= Seq::<TodoView>::empty());
        }
        r
    }

    /// All rows, ordered by ascending id.
    pub fn all(&self) -> (r: Vec<Todo>)
        requires
            self.wf(),
        ensures
            rows_of(r@) == self@,
            sorted_by_id(rows_of(r@)),
    {
        let mut out: Vec<Todo> = Vec::new();
        let mut i: usize = 0;
        while i < self.todos.len()
            invariant
                i <= self.todos@.len(),
                out@.len() == i,
                forall|k: int| 0 <= k < i ==> #[trigger] out@[k]@ == self.todos@[k]@,
            decreases self.todos@.len() - i,
        {
            out.push(self.todos[i].clone());
            i += 1;
        }
        proof {
            assert(rows_of(out@) =~= self@);
        }
        out
    }

    /// Insert a row with the given description, done = false and the next
    /// free id; return the fully populated record. A later fetch of that id
    /// finds exactly this record.
    pub fn create(&mut self, description: &str) -> (t: Todo)
        requires
            old(self).wf(),
            old(self).next_id_spec() < i64::MAX,
        ensures
            final(self).wf(),
            t@ == (TodoView {
                id: old(self).next_id_spec(),
                description: description@,
                done: false,
            }),
            created(
                old(self)@,
                old(self).next_id_spec(),
                final(self)@,
                final(self).next_id_spec(),
                t@,
            ),
            lookup(final(self)@, t@.id) == Some(t@),
            t@.id >= 1,
    {
        let row = Todo { id: self.next_id, description: description.to_owned(), done: false };
        let t = row.clone();
        self.todos.push(row);
        self.next_id = self.next_id + 1;
        proof {
            assert(self@ =~= old(self)@.push(t@));
            lemma_lookup_push_new(old(self)@, t@);
        }
        t
    }

    /// Fetch the single row matching the id; when no row matches, the fetch
    /// itself fails, with the single-row "no rows" message as its one cause.
    pub fn get(&self, id: i64) -> (r: Result<Todo, AppError>)
        requires
            self.wf(),
        ensures
            match r {
                Ok(t) => lookup(self@, id as int) == Some(t@),
                Err(e) => lookup(self@, id as int) is None && e@ == seq![no_rows_text()],
            },
            (r is Ok) == contains_id(self@, id as int),
    {
        let mut i: usize = 0;
        while i < self.todos.len()
            invariant
                i <= self.todos@.len(),
                forall|k: int| 0 <= k < i ==> #[trigger] rows_of(self.todos@)[k].id != id as int,
            decreases self.todos@.len() - i,
        {
            if self.todos[i].id == id {
                let t = self.todos[i].clone();
                proof {
                    lemma_lookup_at(self@, i as int, id as int);
                }
                return Ok(t);
            }
            i += 1;
        }
        proof {
            lemma_lookup_absent(self@, id as int);
        }
        Err(AppError::new(String::from_str(
            "no rows returned by a query that expected to return at least one row",
        )))
    }

    fn set_done(&mut self, id: i64, done: bool) -> (r: bool)
        requires
            old(self).wf(),
        ensures
            final(self).wf(),
            final(self).next_id_spec() == old(self).next_id_spec(),
            r == contains_id(old(self)@, id as int),
            marked(old(self)@, final(self)@, id as int, done),
    {
        let ghost rows = rows_of(self.todos@);
        let mut out: Vec<Todo> = Vec::new();
        let mut found = false;
        let mut i: usize = 0;
        while i < self.todos.len()
            invariant
                *self == *old(self),
                rows == rows_of(self.todos@),
                i <= self.todos@.len(),
                out@.len() == i,
                forall|k: int| 0 <= k < i ==> #[trigger] rows_of(out@)[k] == marked_row(
                    rows[k],
                    id as int,
                    done,
                ),
                found == contains_id(rows.take(i as int), id as int),
            decreases self.todos@.len() - i,
        {
            let ghost prev = out@;
            let t = &self.todos[i];
            if t.id == id {
                out.push(Todo { id: t.id, description: t.description.clone(), done });
                found = true;
                proof {
                    assert(rows.take(i as int + 1)[i as int].id == id as int);
                }
            } else {
                out.push(t.clone());
                proof {
                    assert forall|k: int|
                        0 <= k < rows.take(i as int + 1).len() && #[trigger] rows.take(
                            i as int + 1,
                        )[k].id == id as int implies contains_id(
                        rows.take(i as int),
                        id as int,
                    ) by {
                        assert(k < i as int);
                        assert(rows.take(i as int)[k].id == id as int);
                    }
                }
            }
            proof {
                assert(rows[i as int] == self.todos@[i as int]@);
                assert forall|k: int| 0 <= k < i + 1 implies #[trigger] rows_of(out@)[k]
                    == marked_row(rows[k], id as int, done) by {
                    if k < i {
                        assert(out@[k] == prev[k]);
                        assert(rows_of(prev)[k] == marked_row(rows[k], id as int, done));
                    } else {
                        assert(out@[k] == out@.last());
                    }
                }
            }
            i += 1;
        }
        proof {
            assert(rows.take(self.todos@.len() as int) =~= rows);
        }
        self.todos = out;
        proof {
            assert(self@ =~= rows.map_values(|t: TodoView| marked_row(t, id as int, done)));
        }
        found
    }

    /// Set done = true on the row matching the id; report whether a row
    /// matched. No id, description or other row changes.
    pub fn mark_complete(&mut self, id: i64) -> (r: bool)
        requires
            old(self).wf(),
        ensures
            final(self).wf(),
            final(self).next_id_spec() == old(self).next_id_spec(),
            r == contains_id(old(self)@, id as int),
            marked(old(self)@, final(self)@, id as int, true),
    {
        self.set_done(id, true)
    }

    /// Set done = false on the row matching the id; report whether a row
    /// matched. No id, description or other row changes.
    pub fn mark_incomplete(&mut self, id: i64) -> (r: bool)
        requires
            old(self).wf(),
        ensures
            final(self).wf(),
            final(self).next_id_spec() == old(self).next_id_spec(),
            r == contains_id(old(self)@, id as int),
            marked(old(self)@, final(self)@, id as int, false),
    {
        self.set_done(id, false)
    }

    /// Remove the row matching the id; report whether a row matched. Exactly
    /// that row disappears: afterwards the id is absent, and every other id
    /// still finds the row it found before.
    pub fn delete(&mut self, id: i64) -> (r: bool)
        requires
            old(self).wf(),
        ensures
            final(self).wf(),
            final(self).next_id_spec() == old(self).next_id_spec(),
            r == contains_id(old(self)@, id as int),
            !r ==> final(self)@ == old(self)@,
            r ==> final(self)@.len() + 1 == old(self)@.len(),
            lookup(final(self)@, id as int) is None,
            forall|j: int| j != id as int ==> lookup(final(self)@, j) == lookup(old(self)@, j),
    {
        let mut i: usize = 0;
        while i < self.todos.len()
            invariant
                *self == *old(self),
                old(self).wf(),
                i <= self.todos@.len(),
                forall|k: int| 0 <= k < i ==> #[trigger] rows_of(self.todos@)[k].id != id as int,
            decreases self.todos@.len() - i,
        {
            if self.todos[i].id == id {
                proof {
                    let rows = old(self)@;
                    assert(rows[i as int] == old(self).todos@[i as int]@);
                    assert(rows[i as int].id == id as int);
                    lemma_lookup_at(rows, i as int, id as int);
                }
                self.todos.remove(i);
                proof {
                    let rows = old(self)@;
                    assert(self@ =~= rows.remove(i as int));
                    lemma_lookup_remove(rows, i as int);
                    assert(contains_id(rows, id as int));
                    assert forall|a: int, b: int| 0 <= a < b < self@.len() implies self@[a].id
                        < self@[b].id by {
                        assert(self@[a] == if a < i as int { rows[a] } else { rows[a + 1] });
                        assert(self@[b] == if b < i as int { rows[b] } else { rows[b + 1] });
                    }
                    assert forall|k: int| 0 <= k < self@.len() implies 1 <= #[trigger] self@[k].id
                        < self.next_id as int by {
                        assert(self@[k] == if k < i as int { rows[k] } else { rows[k + 1] });
                    }
                }
                return true;
            }
            i += 1;
        }
        proof {
            lemma_lookup_absent(self@, id as int);
        }
        false
    }
}

/// Marking a todo complete is idempotent: when the row exists, a second
/// update of the done flag to true reports a match again and leaves the
/// table exactly as the first update left it, with the flag still true.
pub proof fn lemma_mark_complete_idempotent(
    rows: Seq<TodoView>,
    rows1: Seq<TodoView>,
    rows2: Seq<TodoView>,
    id: int,
)
    requires
        contains_id(rows, id),
        marked(rows, rows1, id, true),
        marked(rows1, rows2, id, true),
    ensures
        rows2 == rows1,
        contains_id(rows1, id),
        forall|k: int| 0 <= k < rows1.len() && rows1[k].id == id ==> rows1[k].done,
{
    assert(rows2 =~= rows1);
    let k = choose|k: int| 0 <= k < rows.len() && rows[k].id == id;
    assert(rows1[k].id == id);
}

/// Two creations, in whichever order the store serializes them, assign
/// distinct ids, and both created rows stand in the final table.
pub proof fn lemma_two_creates_distinct(
    rows: Seq<TodoView>,
    next: int,
    rows1: Seq<TodoView>,
    next1: int,
    t1: TodoView,
    rows2: Seq<TodoView>,
    next2: int,
    t2: TodoView,
)
    requires
        created(rows, next, rows1, next1, t1),
        created(rows1, next1, rows2, next2, t2),
    ensures
        t1.id != t2.id,
        contains_id(rows2, t1.id),
        contains_id(rows2, t2.id),
{
    assert(rows2[rows.len() as int] == t1);
    assert(rows2[rows.len() as int + 1] == t2);
}

} // verus!
