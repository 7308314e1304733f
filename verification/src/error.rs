//! The uniform error of the HTTP-facing code path: any failure is a chain of
//! cause texts, and every one renders as status 500 with a plain-text body.

use vstd::prelude::*;
use vstd::string::*;
use crate::text::{dec_int, i64_to_dec, join_causes, joined, texts_of};

verus! {

/// A wrapped failure: its chain of cause texts, outermost first.
#[derive(Debug)]
pub struct AppError {
    causes: Vec<String>,
}

/// The message constructed for an edit or delete whose id no row matches.
pub open spec fn not_found_text(id: int) -> Seq<char> {
    "no todo with ID '"@ + dec_int(id) + "' found"@
}

/// The plain-text response body for an error: the cause texts, outermost
/// first, joined with `"; "` behind the fixed prefix.
pub open spec fn error_body_text(causes: Seq<Seq<char>>) -> Seq<char> {
    "error: "@ + joined(causes, "; "@)
}

impl View for AppError {
    type V = Seq<Seq<char>>;

    closed spec fn view(&self) -> Seq<Seq<char>> {
        texts_of(self.causes@)
    }
}

impl AppError {
    /// Wrap a failure described by a single message.
    pub fn new(message: String) -> (r: Self)
        ensures
            r@ == seq![message@],
    {
        let mut causes: Vec<String> = Vec::new();
        causes.push(message);
        let r = AppError { causes };
        proof {
            assert(r@ =~= seq![message@]);
        }
        r
    }

    /// Wrap a failure described by its chain of cause texts, outermost first.
    pub fn from_causes(causes: Vec<String>) -> (r: Self)
        ensures
            r@ == texts_of(causes@),
    {
        AppError { causes }
    }

    /// The error for an edit or delete of an id that no row matches; its one
    /// cause reads `no todo with ID '<id>' found`.
    pub fn not_found(id: i64) -> (r: Self)
        ensures
            r@ == seq![not_found_text(id as int)],
    {
        let mut msg = String::from_str("no todo with ID '");
        let num = i64_to_dec(id);
        msg.append(num.as_str());
        msg.append("' found");
        proof {
            assert(msg@ =~= not_found_text(id as int));
        }
        AppError::new(msg)
    }

    /// The HTTP status every wrapped error renders to, whatever its cause.
    pub fn status(&self) -> (r: u16)
        ensures
            r == 500,
    {
        500
    }

    /// The plain-text response body: `error: <cause>; <cause>; ...`.
    pub fn body(&self) -> (r: String)
        ensures
            r@ == error_body_text(self@),
    {
        let mut s = String::from_str("error: ");
        let tail = join_causes(&self.causes);
        s.append(tail.as_str());
        proof {
            assert(s@ =~= error_body_text(self@));
        }
        s
    }
}

/// An edit or delete of a missing id renders as exactly
/// `error: no todo with ID '<id>' found`: the not-found error has that one
/// cause and nothing more is joined in.
pub proof fn lemma_not_found_body(id: int)
    ensures
        error_body_text(seq![not_found_text(id)]) == "error: "@ + not_found_text(id),
{
    assert(joined(seq![not_found_text(id)], "; "@) == not_found_text(id));
}

} // verus!
