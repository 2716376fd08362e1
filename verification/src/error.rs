use vstd::prelude::*;

verus! {

/// The ways a request can fail.
#[derive(Clone, Copy, Debug, PartialEq, Eq, Structural)]
pub enum ApiError {
    /// The credential is missing, malformed, forged or expired.
    Unauthorized,
    /// The request carries empty content or an out-of-range vote value.
    BadRequest,
    /// The addressed resource does not exist, or is not the caller's to delete.
    NotFound,
    /// An external provider could not be reached or answered nonsense.
    BadGateway,
    /// The storage layer failed.
    Internal,
}

impl ApiError {
    /// The HTTP status code that stands for this failure.
    pub open spec fn status_spec(self) -> int {
        match self {
            ApiError::Unauthorized => 401,
            ApiError::BadRequest => 400,
            ApiError::NotFound => 404,
            ApiError::BadGateway => 502,
            ApiError::Internal => 500,
        }
    }

    /// The HTTP status code that stands for this failure.
    pub fn status(&self) -> (code: u16)
        ensures
            code == self.status_spec(),
    {
        match self {
            ApiError::Unauthorized => 401,
            ApiError::BadRequest => 400,
            ApiError::NotFound => 404,
            ApiError::BadGateway => 502,
            ApiError::Internal => 500,
        }
    }
}

} // verus!
