//! Status codes that the directory's endpoints answer with.

use vstd::prelude::*;

verus! {

/// The status line of a response. The service answers with these four and no
/// others.
#[derive(Clone, Copy, Debug, PartialEq, Eq, Structural)]
pub enum Status {
    /// 200: the request was served and the body carries the result.
    Success,
    /// 204: the request was served and there is nothing to send back.
    NoContent,
    /// 404: no record has the identifier that the request names.
    NotFound,
    /// 500: the store failed while the request was being served.
    InternalServerError,
}

impl Status {
    /// The number that goes on the wire for this status.
    pub open spec fn spec_code(self) -> int {
        match self {
            Status::Success => 200,
            Status::NoContent => 204,
            Status::NotFound => 404,
            Status::InternalServerError => 500,
        }
    }

    /// The number that goes on the wire for this status.
    pub fn code(self) -> (n: u16)
        ensures
            n == self.spec_code(),
    {
        match self {
            Status::Success => 200,
            Status::NoContent => 204,
            Status::NotFound => 404,
            Status::InternalServerError => 500,
        }
    }
}

} // verus!
