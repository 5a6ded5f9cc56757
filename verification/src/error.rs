//! Why a run ends early.

use vstd::prelude::*;
use vstd::string::*;

verus! {

/// A condition that ends the run.
#[derive(Debug, Clone, Copy, PartialEq, Eq, Structural)]
pub enum SureError {
    /// The landing page came without the header that carries the session.
    NoSessionHeader,
    /// The header holds nothing of the shape of a session.
    NoSessionToken,
    /// The pattern that finds the session was refused.
    SessionPattern,
    /// The search gave no well-formed answer within the attempts allowed.
    RetriesExhausted,
}

/// What is reported for each condition.
pub open spec fn error_text(error: SureError) -> Seq<char> {
    match error {
        SureError::NoSessionHeader => "the response carries no session header"@,
        SureError::NoSessionToken => "unable to find session id"@,
        SureError::SessionPattern => "the session pattern was refused"@,
        SureError::RetriesExhausted => "exceeded retry count - URE must be down"@,
    }
}

impl SureError {
    /// The line to report for this condition.
    pub fn message(&self) -> (text: String)
        ensures
            text@ == error_text(*self),
    {
        match self {
            SureError::NoSessionHeader => "the response carries no session header".to_owned(),
            SureError::NoSessionToken => "unable to find session id".to_owned(),
            SureError::SessionPattern => "the session pattern was refused".to_owned(),
            SureError::RetriesExhausted => "exceeded retry count - URE must be down".to_owned(),
        }
    }
}

} // verus!
