use vstd::prelude::*;

verus! {

/// The ways a service operation can fail.
#[derive(Debug, PartialEq, Eq)]
pub enum ServiceError {
    /// The identifier is not twenty-four hexadecimal digits.
    InvalidArgument,
    /// No record that is not soft-deleted has the identifier.
    NotFound,
    /// The storage layer refused the operation; the message is its own.
    StorageFailure(String),
}

impl ServiceError {
    /// The HTTP status that reports this error.
    pub fn status_code(&self) -> (r: u16)
        ensures
            r == match self {
                ServiceError::InvalidArgument => 400u16,
                ServiceError::NotFound => 404u16,
                ServiceError::StorageFailure(_) => 500u16,
            },
    {
        match self {
            ServiceError::InvalidArgument => 400,
            ServiceError::NotFound => 404,
            ServiceError::StorageFailure(_) => 500,
        }
    }
}

} // verus!
