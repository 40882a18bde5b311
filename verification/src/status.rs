//! The HTTP statuses with which the server answers.

use vstd::prelude::*;

verus! {

/// An HTTP status that a handler or a request check answers with.
#[derive(Debug, Clone, Copy, PartialEq, Eq, Structural)]
pub enum HttpStatus {
    Accepted,
    BadRequest,
    Unauthorized,
    ImATeapot,
}

/// The numeric code of a status.
pub open spec fn status_code(s: HttpStatus) -> u16 {
    match s {
        HttpStatus::Accepted => 202,
        HttpStatus::BadRequest => 400,
        HttpStatus::Unauthorized => 401,
        HttpStatus::ImATeapot => 418,
    }
}

impl HttpStatus {
    /// The numeric code of the status.
    pub fn code(&self) -> (c: u16)
        ensures
            c == status_code(*self),
    {
        match self {
            HttpStatus::Accepted => 202,
            HttpStatus::BadRequest => 400,
            HttpStatus::Unauthorized => 401,
            HttpStatus::ImATeapot => 418,
        }
    }
}

} // verus!
