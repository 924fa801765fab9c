//! The failures this library reports.

use vstd::prelude::*;

verus! {

/// Why an operation was refused. Every failure leaves the state it was
/// called on untouched.
#[derive(Clone, Copy, Debug, PartialEq, Eq, Structural)]
pub enum ScreeningError {
    /// The caller supplied a value of the wrong shape.
    Validation,
    /// The call or callback that was referred to does not exist.
    NotFound,
    /// The identifier offered for a new record is already taken.
    Conflict,
    /// The record is in a terminal status and can no longer change.
    InvalidTransition,
    /// The requested action is not one the routing policy knows.
    InvalidAction,
    /// The transcriber failed.
    Transcription,
    /// The classifier failed.
    Classification,
    /// A collaborator did not answer in time.
    Timeout,
    /// A collaborator answered with something that cannot be read.
    MalformedResult,
}

impl ScreeningError {
    /// Whether repeating the same request may succeed: true exactly for the
    /// failures of a collaborator, after which nothing was written.
    pub open spec fn retryable(self) -> bool {
        self == ScreeningError::Transcription || self == ScreeningError::Classification
            || self == ScreeningError::Timeout
    }

    pub fn is_retryable(&self) -> (r: bool)
        ensures
            r == self.retryable(),
    {
        match self {
            ScreeningError::Transcription => true,
            ScreeningError::Classification => true,
            ScreeningError::Timeout => true,
            _ => false,
        }
    }
}

} // verus!
