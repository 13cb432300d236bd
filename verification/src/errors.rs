//! Error taxonomy of the gateway core.
//!
//! Administrative operations on the registry report [`RegistryError`];
//! routing and adapter calls report [`AdapterError`]. Failures are always
//! returned as values: no verified function of this crate panics.

use vstd::prelude::*;

verus! {

/// Error returned by the registry's administrative operations.
#[derive(Debug, Clone, Copy, PartialEq, Eq, Structural)]
pub enum RegistryError {
    /// `add` found a live entry under the requested name.
    DuplicateName,
    /// `remove` or `replace` found no entry under the requested name.
    NotFound,
}

/// Error attached to a single adapter call or to a routing decision.
#[derive(Debug, Clone, PartialEq, Eq)]
pub enum AdapterError {
    /// The request named an adapter that is not registered.
    NotFound(String),
    /// The call did not complete within its deadline.
    Timeout,
    /// The backend answered with a failure of its own; the detail text
    /// is passed through for the caller to report.
    BackendFailure(String),
    /// No backend could produce a response at all.
    Unavailable,
}

impl AdapterError {
    /// Short stable label for the error, for wire-level status mapping.
    pub fn label(&self) -> (r: &'static str)
        ensures
            r@ == self.label_spec(),
    {
        match self {
            AdapterError::NotFound(_) => "not_found",
            AdapterError::Timeout => "timeout",
            AdapterError::BackendFailure(_) => "backend_failure",
            AdapterError::Unavailable => "unavailable",
        }
    }

    /// The label each variant carries.
    pub open spec fn label_spec(&self) -> Seq<char> {
        match self {
            AdapterError::NotFound(_) => "not_found"@,
            AdapterError::Timeout => "timeout"@,
            AdapterError::BackendFailure(_) => "backend_failure"@,
            AdapterError::Unavailable => "unavailable"@,
        }
    }
}

} // verus!
