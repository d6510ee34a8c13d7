//! The kinds of failure that the operations of this crate report.

use crate::text::text_eq;
use vstd::prelude::*;
use vstd::string::*;

verus! {

/// Why an operation was refused or could not be carried out.
#[derive(Clone, Copy, Debug, PartialEq, Eq, Structural)]
pub enum Fault {
    /// The named build is not known.
    NotFound,
    /// The input is malformed, or accepting it would break an invariant.
    Invalid,
    /// The request duplicates or contradicts recorded state.
    Conflict,
    /// The store, the messenger or a peer could not be reached.
    Unavailable,
    /// A deadline passed.
    Timeout,
    /// Recorded state is not what the operation relies on.
    Internal,
}

impl Fault {
    /// The token under which a kind of failure travels.
    pub open spec fn token(self) -> Seq<char> {
        match self {
            Fault::NotFound => "not_found"@,
            Fault::Invalid => "invalid"@,
            Fault::Conflict => "conflict"@,
            Fault::Unavailable => "unavailable"@,
            Fault::Timeout => "timeout"@,
            Fault::Internal => "internal"@,
        }
    }

    /// The kind of failure that a token stands for: `Internal` for the
    /// token `internal` and for any text that is no token.
    pub open spec fn of_token(t: Seq<char>) -> Fault {
        if t == Fault::NotFound.token() {
            Fault::NotFound
        } else if t == Fault::Invalid.token() {
            Fault::Invalid
        } else if t == Fault::Conflict.token() {
            Fault::Conflict
        } else if t == Fault::Unavailable.token() {
            Fault::Unavailable
        } else if t == Fault::Timeout.token() {
            Fault::Timeout
        } else {
            Fault::Internal
        }
    }

    /// What is said of a failure of this kind when nothing more is known.
    pub open spec fn message(self) -> Seq<char> {
        match self {
            Fault::NotFound => "failed to get the build"@,
            Fault::Invalid => "the request is invalid"@,
            Fault::Conflict => "the request conflicts with the recorded state"@,
            Fault::Unavailable => "a service is unavailable"@,
            Fault::Timeout => "the request timed out"@,
            Fault::Internal => "expected the build to exist"@,
        }
    }

    /// Reading the token of a kind of failure gives the kind back.
    pub proof fn lemma_token_round_trip(self)
        ensures
            Fault::of_token(self.token()) == self,
    {
        reveal_strlit("not_found");
        reveal_strlit("invalid");
        reveal_strlit("conflict");
        reveal_strlit("unavailable");
        reveal_strlit("timeout");
        reveal_strlit("internal");
        assert("not_found"@[0] == 'n');
        assert("invalid"@[1] == 'n');
        assert("internal"@[2] == 't' && "invalid"@[2] == 'v');
        assert("conflict"@[0] == 'c');
        assert("unavailable"@[0] == 'u');
        assert("timeout"@[0] == 't');
    }

    /// The token of this kind of failure.
    pub fn as_str(&self) -> (r: &'static str)
        ensures
            r@ == self.token(),
    {
        match self {
            Fault::NotFound => "not_found",
            Fault::Invalid => "invalid",
            Fault::Conflict => "conflict",
            Fault::Unavailable => "unavailable",
            Fault::Timeout => "timeout",
            Fault::Internal => "internal",
        }
    }

    /// The kind of failure that a token stands for.
    pub fn parse(text: &str) -> (r: Fault)
        ensures
            r == Fault::of_token(text@),
    {
        if text_eq(text, "not_found") {
            Fault::NotFound
        } else if text_eq(text, "invalid") {
            Fault::Invalid
        } else if text_eq(text, "conflict") {
            Fault::Conflict
        } else if text_eq(text, "unavailable") {
            Fault::Unavailable
        } else if text_eq(text, "timeout") {
            Fault::Timeout
        } else {
            Fault::Internal
        }
    }

    /// What is said of a failure of this kind when nothing more is known.
    pub fn describe(&self) -> (r: &'static str)
        ensures
            r@ == self.message(),
    {
        match self {
            Fault::NotFound => "failed to get the build",
            Fault::Invalid => "the request is invalid",
            Fault::Conflict => "the request conflicts with the recorded state",
            Fault::Unavailable => "a service is unavailable",
            Fault::Timeout => "the request timed out",
            Fault::Internal => "expected the build to exist",
        }
    }

    /// The HTTP status code with which a failure of this kind is answered.
    pub open spec fn status_code_spec(self) -> u16 {
        match self {
            Fault::NotFound => 404,
            Fault::Invalid => 400,
            Fault::Conflict => 500,
            Fault::Unavailable => 500,
            Fault::Timeout => 500,
            Fault::Internal => 500,
        }
    }

    /// The HTTP status code with which a failure of this kind is answered:
    /// 404 for a missing resource, 400 for a validation failure, 500 otherwise.
    pub fn status_code(&self) -> (code: u16)
        ensures
            code == self.status_code_spec(),
    {
        match self {
            Fault::NotFound => 404,
            Fault::Invalid => 400,
            Fault::Conflict => 500,
            Fault::Unavailable => 500,
            Fault::Timeout => 500,
            Fault::Internal => 500,
        }
    }
}

} // verus!
