//! Errors of the library's own computations.
use vstd::prelude::*;

verus! {

/// What can go wrong in the library's own computations.
#[derive(Debug)]
pub enum IntakeError {
    /// JSON text that could not be read or written (serde_json's message).
    Json(String),
    /// The system random number generator failed.
    Rng,
}

impl IntakeError {
    /// A human-readable description of the error (serde_json's own message
    /// for a JSON error).
    pub fn describe(&self) -> (r: String)
        ensures
            match self {
                IntakeError::Json(msg) => r@ == msg@,
                IntakeError::Rng => r@ == "random number generator failure"@,
            },
    {
        match self {
            IntakeError::Json(msg) => msg.clone(),
            IntakeError::Rng => {
                let mut r = String::new();
                r.append("random number generator failure");
                r
            },
        }
    }
}

} // verus!
