//! What the Kubernetes API answers when it does not do what it was asked.
use vstd::prelude::*;

verus! {

/// An answer of the API server that reports an error.
#[derive(Debug, Clone, PartialEq, Eq)]
pub struct ErrorResponse {
    pub code: u16,
    pub message: String,
}

/// A failed call: the answer of the API server, if there was one, and a description of the failure.
#[derive(Debug, PartialEq, Eq)]
pub struct KubeError {
    pub response: Option<ErrorResponse>,
    pub text: String,
}

impl KubeError {
    /// The code that the API server answered, if it did.
    pub open spec fn answered(self, code: u16) -> bool {
        self.response matches Some(response) && response.code == code
    }

    /// Whether the API server answered with this code.
    pub fn has_code(&self, code: u16) -> (r: bool)
        ensures
            r == self.answered(code),
    {
        match &self.response {
            Some(response) => response.code == code,
            None => false,
        }
    }
}

} // verus!
