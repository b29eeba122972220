//! The errors that a client of the gateway is answered with.
use vstd::prelude::*;

verus! {

/// Why a request is refused.
#[derive(Debug, PartialEq, Eq)]
pub enum AppError {
    /// The request cannot be served as it was sent.
    BadRequest { message: String },
}

/// The result of serving a request.
pub type AppResult<T> = Result<T, AppError>;

impl AppError {
    /// The refusal of a request that cannot be served as it was sent.
    pub fn bad_request(message: String) -> (error: AppError)
        ensures
            error == (AppError::BadRequest { message }),
    {
        AppError::BadRequest { message }
    }
}

} // verus!
