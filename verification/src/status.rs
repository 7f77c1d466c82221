//! The error that a request is answered with.
use crate::text::concat;
use vstd::prelude::*;

verus! {

/// The kind of an error.
#[derive(Debug, Clone, Copy, PartialEq, Eq, Structural)]
pub enum Code {
    InvalidArgument,
    NotFound,
    AlreadyExists,
    PermissionDenied,
    FailedPrecondition,
    Internal,
    Unauthenticated,
}

/// An error with a message for the caller.
#[derive(Debug)]
pub struct Status {
    pub code: Code,
    pub message: String,
}

impl Status {
    /// This status has the code `code` and says `text`.
    pub open spec fn says(self, code: Code, text: Seq<char>) -> bool {
        self.code == code && self.message@ == text
    }

    pub fn new(code: Code, message: &str) -> (r: Status)
        ensures
            r.says(code, message@),
    {
        Status { code, message: message.to_owned() }
    }

    /// An internal error: what was attempted, and what came of it.
    pub fn internal(attempt: &str, detail: &str) -> (r: Status)
        ensures
            r.says(Code::Internal, attempt@ + detail@),
    {
        Status { code: Code::Internal, message: concat(attempt, detail) }
    }

    pub fn code(&self) -> (r: Code)
        ensures
            r == self.code,
    {
        self.code
    }

    pub fn message(&self) -> (r: &str)
        ensures
            r@ == self.message@,
    {
        self.message.as_str()
    }
}

/// `result` is the error with the code `code` that says `text`.
pub open spec fn fails<T>(result: Result<T, Status>, code: Code, text: Seq<char>) -> bool {
    result matches Err(status) && status.says(code, text)
}

} // verus!
