//! The capability contract every backend adapter implements.

use vstd::prelude::*;
use crate::errors::AdapterError;

verus! {

/// One backend conversational service, seen as a capability: given input
/// text and a deadline, produce a response or fail.
///
/// The contract places no requirement on the result: an implementation may
/// perform arbitrary work of its own, but it must return an
/// [`AdapterError`] value rather than panic, and it is expected to honour
/// the deadline (reporting `AdapterError::Timeout` when it cannot answer in
/// `deadline_ms` milliseconds). Callers in this crate are verified to
/// handle every possible outcome, so nothing here is taken on trust.
///
/// Adapters are treated as immutable capability handles: the registry owns
/// them once registered and nothing mutates them afterwards.
pub trait ChatbotAdapter {
    /// Produce a response to `input`, or an error, within `deadline_ms`
    /// milliseconds.
    fn respond(&self, input: &str, deadline_ms: u64) -> Result<String, AdapterError>;
}

} // verus!
