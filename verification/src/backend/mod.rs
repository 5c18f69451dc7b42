//! What the core knows of an upstream backend: the ways in which a call can
//! fail, and a deterministic stand-in backend.

pub mod mock;
pub mod openai;

use vstd::prelude::*;
use vstd::string::*;

verus! {

#[derive(Debug)]
pub enum BackendError {
    Unavailable(String),
    Timeout(String),
    InvalidResponse(String),
}

impl BackendError {
    /// The text that describes the error: its class, then its detail.
    pub open spec fn spec_describe(&self) -> Seq<char> {
        match self {
            BackendError::Unavailable(detail) => "backend unavailable: "@ + detail@,
            BackendError::Timeout(detail) => "backend timeout: "@ + detail@,
            BackendError::InvalidResponse(detail) => "backend invalid response: "@ + detail@,
        }
    }

    pub fn describe(&self) -> (text: String)
        ensures
            text@ == self.spec_describe(),
    {
        match self {
            BackendError::Unavailable(detail) => String::from_str("backend unavailable: ").concat(
                detail.as_str(),
            ),
            BackendError::Timeout(detail) => String::from_str("backend timeout: ").concat(
                detail.as_str(),
            ),
            BackendError::InvalidResponse(detail) => String::from_str(
                "backend invalid response: ",
            ).concat(detail.as_str()),
        }
    }
}

impl Clone for BackendError {
    fn clone(&self) -> (r: Self)
        ensures
            r == *self,
    {
        match self {
            BackendError::Unavailable(detail) => BackendError::Unavailable(detail.clone()),
            BackendError::Timeout(detail) => BackendError::Timeout(detail.clone()),
            BackendError::InvalidResponse(detail) => BackendError::InvalidResponse(detail.clone()),
        }
    }
}

} // verus!
