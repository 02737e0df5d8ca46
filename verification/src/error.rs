//! Why the registry turns a request down.

use vstd::prelude::*;

verus! {

/// The ways in which a change to the registry fails.
#[derive(Debug, Clone, Copy, PartialEq, Eq, Structural)]
pub enum RegistryError {
    /// The id in the record is not the id that the request names.
    ValidationRejected,
    /// No unused id came up within the allowed number of draws.
    AllocationExhausted,
}

impl RegistryError {
    /// A sentence for logs and responses.
    pub fn message(&self) -> (r: &'static str)
        ensures
            r@ == match *self {
                RegistryError::ValidationRejected => "camera id does not match the request"@,
                RegistryError::AllocationExhausted => "no unused camera id was found"@,
            },
    {
        match self {
            RegistryError::ValidationRejected => "camera id does not match the request",
            RegistryError::AllocationExhausted => "no unused camera id was found",
        }
    }
}

} // verus!
