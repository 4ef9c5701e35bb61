//! The error taxonomy of a crawl.
//!
//! A configuration fault or a failure on a listing request aborts the whole
//! crawl; a failed metadata probe never does (it only leaves a candidate
//! unconfirmed) and therefore has no variant here.

use vstd::prelude::*;

verus! {

/// Why a crawl could not start or continue.
#[derive(Debug, PartialEq, Eq)]
pub enum FinderError {
    /// The configuration's base address is empty.
    Configuration,
    /// A listing request could not be carried out at all.
    Transport(String),
    /// A listing request was answered, but with a failure status or with a
    /// body that is not a JSON array.
    Protocol(String),
}

impl FinderError {
    /// A human-readable description of the error.
    pub fn message(&self) -> (r: String)
        ensures
            self is Configuration ==> r@ == "URL is required"@,
            self matches FinderError::Transport(m) ==> r@ == m@,
            self matches FinderError::Protocol(m) ==> r@ == m@,
    {
        match self {
            FinderError::Configuration => "URL is required".to_owned(),
            FinderError::Transport(m) => m.clone(),
            FinderError::Protocol(m) => m.clone(),
        }
    }
}

} // verus!
