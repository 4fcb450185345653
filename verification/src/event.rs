//! The audit event that ships with the library.
use vstd::prelude::*;

verus! {

/// Built-in audit event. Can be ignored or replaced with a custom type.
#[derive(Debug, Clone)]
pub enum DefaultAuditEvent {
    /// Token resolved successfully.
    TokenResolved { owner: String, path: String },
    /// Token not found or rejected.
    TokenDenied { token: String, reason: &'static str },
    /// Upstream responded with an error.
    UpstreamError { owner: String, status: u16 },
}

} // verus!
