//! The library's error taxonomy: a missing file, structurally invalid input,
//! malformed document data, and internal (filesystem) failures.  Callers at
//! the HTTP boundary translate these to status codes.

use vstd::prelude::*;

verus! {

/// Why a cache or parse operation failed.
#[derive(Debug, PartialEq, Eq)]
pub enum Error {
    /// The backing file does not exist; any stale cache entry was evicted.
    NotFound,
    /// The identifier or path is structurally invalid; the cache is untouched.
    InvalidInput,
    /// The document's front matter is missing or malformed; a stale cache
    /// entry, if any, is preserved.  Carries a description of the defect.
    Data(String),
    /// A filesystem or other internal failure.  Carries a description.
    Internal(String),
}

impl Error {
    /// A short description of the error, for logging and error pages.
    pub fn message(&self) -> (r: String)
        ensures
            match self {
                Error::Data(m) => r@ == m@,
                Error::Internal(m) => r@ == m@,
                Error::NotFound => r@ == "not found"@,
                Error::InvalidInput => r@ == "invalid input"@,
            },
    {
        match self {
            Error::NotFound => "not found".to_owned(),
            Error::InvalidInput => "invalid input".to_owned(),
            Error::Data(m) => m.clone(),
            Error::Internal(m) => m.clone(),
        }
    }

    /// Whether the error reports a missing file.
    pub fn is_not_found(&self) -> (r: bool)
        ensures
            r == (self is NotFound),
    {
        match self {
            Error::NotFound => true,
            _ => false,
        }
    }
}

} // verus!
