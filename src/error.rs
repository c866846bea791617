use vstd::prelude::*;

verus! {

/// The abstract error taxonomy, independent of transport.
#[derive(Clone, Copy, Debug, PartialEq, Eq, Structural)]
pub enum ErrorCode {
    InvalidParameter,
    ResourceNotFound,
    AlreadyExists,
    PermissionDenied,
    TooManyRequest,
    MethodNotAllowed,
    NetworkError,
    AutoconfigFetchFailed,
    InternalError,
}

/// An error carrying its taxonomy code and a human-readable message.
#[derive(Debug)]
pub struct BichonError {
    pub code: ErrorCode,
    pub message: String,
}

impl Clone for BichonError {
    fn clone(&self) -> (r: Self)
        ensures
            r == *self,
    {
        BichonError { code: self.code, message: self.message.clone() }
    }
}

impl BichonError {
    pub fn new(code: ErrorCode, message: String) -> (r: Self)
        ensures
            r.code == code,
            r.message == message,
    {
        BichonError { code, message }
    }
}

pub type BichonResult<T> = Result<T, BichonError>;

} // verus!
