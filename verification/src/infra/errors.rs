//! Faults that are reported to the caller of the service.

use vstd::prelude::*;
use vstd::string::*;

verus! {

/// A fault that ends a request before any model is asked.
#[derive(Debug, PartialEq, Eq)]
pub enum DomainError {
    /// The request is malformed, oversized or empty; the text says how.
    Validation(String),
}

pub type DomainResult<T> = Result<T, DomainError>;

impl Clone for DomainError {
    fn clone(&self) -> (copy: Self)
        ensures
            copy == *self,
    {
        match self {
            DomainError::Validation(message) => DomainError::Validation(message.clone()),
        }
    }
}

impl DomainError {
    /// The text carried by the fault.
    pub open spec fn text(&self) -> Seq<char> {
        match self {
            DomainError::Validation(message) => message@,
        }
    }

    /// A validation fault with the given text.
    pub fn validation(message: &str) -> (fault: DomainError)
        ensures
            fault.text() == message@,
    {
        DomainError::Validation(String::from_str(message))
    }

    /// The text carried by the fault.
    pub fn message(&self) -> (text: String)
        ensures
            text@ == self.text(),
    {
        match self {
            DomainError::Validation(message) => message.clone(),
        }
    }
}

} // verus!
