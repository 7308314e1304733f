//! The dispatch table of the REST API: which endpoint serves a method and
//! path. The `:id`-shaped path only groups requests; the item endpoints read
//! the id they operate on from the query string, never from the path.

use vstd::prelude::*;
use vstd::string::*;

verus! {

/// The request methods the API distinguishes.
#[derive(Clone, Copy, Debug, PartialEq, Eq, Structural)]
pub enum Method {
    Get,
    Post,
    Patch,
    Delete,
}

/// The six endpoints of the service.
#[derive(Clone, Copy, Debug, PartialEq, Eq, Structural)]
pub enum Endpoint {
    Healthcheck,
    CreateTodo,
    ListTodos,
    GetTodo,
    EditTodo,
    DeleteTodo,
}

/// Whether a path addresses a single todo: the fixed prefix, then one
/// further non-empty segment with no slash in it.
pub open spec fn is_item_path(p: Seq<char>) -> bool {
    let pre = "/api/todos/"@;
    &&& p.len() > pre.len()
    &&& p.take(pre.len() as int) == pre
    &&& forall|k: int| pre.len() <= k < p.len() ==> p[k] != '/'
}

/// The endpoint a method and path dispatch to, if any.
pub open spec fn route_spec(m: Method, p: Seq<char>) -> Option<Endpoint> {
    if p == "/api/healthcheck"@ {
        if m is Get {
            Some(Endpoint::Healthcheck)
        } else {
            None
        }
    } else if p == "/api/todos"@ {
        if m is Post {
            Some(Endpoint::CreateTodo)
        } else if m is Get {
            Some(Endpoint::ListTodos)
        } else {
            None
        }
    } else if is_item_path(p) {
        if m is Get {
            Some(Endpoint::GetTodo)
        } else if m is Patch {
            Some(Endpoint::EditTodo)
        } else if m is Delete {
            Some(Endpoint::DeleteTodo)
        } else {
            None
        }
    } else {
        None
    }
}

/// Whether two texts hold the same characters.
pub fn text_eq(a: &str, b: &str) -> (r: bool)
    ensures
        r == (a@ == b@),
{
    let an = a.unicode_len();
    let bn = b.unicode_len();
    if an != bn {
        return false;
    }
    let mut i: usize = 0;
    while i < an
        invariant
            a@.len() == an,
            b@.len() == bn,
            an == bn,
            i <= an,
            forall|k: int| 0 <= k < i ==> a@[k] == b@[k],
        decreases an - i,
    {
        if a.get_char(i) != b.get_char(i) {
            return false;
        }
        i += 1;
    }
    proof {
        assert(a@ =~= b@);
    }
    true
}

/// Whether a path addresses a single todo.
pub fn is_todo_item_path(s: &str) -> (r: bool)
    ensures
        r == is_item_path(s@),
{
    let pre = "/api/todos/";
    let n = s.unicode_len();
    let pn = pre.unicode_len();
    if n <= pn {
        return false;
    }
    let mut i: usize = 0;
    while i < pn
        invariant
            pre@ == "/api/todos/"@,
            s@.len() == n,
            pre@.len() == pn,
            pn < n,
            i <= pn,
            forall|k: int| 0 <= k < i ==> s@[k] == pre@[k],
        decreases pn - i,
    {
        if s.get_char(i) != pre.get_char(i) {
            proof {
                assert(!is_item_path(s@)) by {
                    if is_item_path(s@) {
                        assert(s@.take(pn as int) == pre@);
                        assert(s@.take(pn as int)[i as int] == pre@[i as int]);
                    }
                }
            }
            return false;
        }
        i += 1;
    }
    proof {
        assert(s@.take(pn as int) =~= pre@);
    }
    let mut j: usize = pn;
    while j < n
        invariant
            pre@ == "/api/todos/"@,
            s@.len() == n,
            pre@.len() == pn,
            pn <= j <= n,
            s@.take(pn as int) == pre@,
            forall|k: int| pn <= k < j ==> s@[k] != '/',
        decreases n - j,
    {
        if s.get_char(j) == '/' {
            proof {
                assert(!is_item_path(s@)) by {
                    if is_item_path(s@) {
                        assert(s@[j as int] != '/');
                    }
                }
            }
            return false;
        }
        j += 1;
    }
    true
}

/// Dispatch a method and path to the endpoint that serves them.
pub fn match_route(m: Method, path: &str) -> (r: Option<Endpoint>)
    ensures
        r == route_spec(m, path@),
{
    if text_eq(path, "/api/healthcheck") {
        match m {
            Method::Get => Some(Endpoint::Healthcheck),
            _ => None,
        }
    } else if text_eq(path, "/api/todos") {
        match m {
            Method::Post => Some(Endpoint::CreateTodo),
            Method::Get => Some(Endpoint::ListTodos),
            _ => None,
        }
    } else if is_todo_item_path(path) {
        match m {
            Method::Get => Some(Endpoint::GetTodo),
            Method::Patch => Some(Endpoint::EditTodo),
            Method::Delete => Some(Endpoint::DeleteTodo),
            _ => None,
        }
    } else {
        None
    }
}

/// The path segment after the item prefix plays no part in dispatch: any two
/// item paths send a method to the same endpoint. The id such a request
/// operates on reaches the handlers from the query string alone.
pub proof fn lemma_item_path_segment_ignored(m: Method, p1: Seq<char>, p2: Seq<char>)
    requires
        is_item_path(p1),
        is_item_path(p2),
    ensures
        route_spec(m, p1) == route_spec(m, p2),
{
    reveal_strlit("/api/todos/");
    reveal_strlit("/api/healthcheck");
    reveal_strlit("/api/todos");
    assert forall|p: Seq<char>| is_item_path(p) implies p != "/api/healthcheck"@ && p
        != "/api/todos"@ by {
        if p == "/api/healthcheck"@ {
            assert(p.take("/api/todos/"@.len() as int)[5] == 'h');
            assert("/api/todos/"@[5] == 't');
        }
        if p == "/api/todos"@ {
            assert(p.len() <= "/api/todos/"@.len());
        }
    }
}

} // verus!
