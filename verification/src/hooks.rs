//! What users of the library implement: a resolver and hooks.
use vstd::prelude::*;

verus! {

/// Turns a raw token into a resolved identity, and reports what happened as
/// an audit event.
pub trait TokenResolver {
    /// The raw token that a request carries.
    type Token: 'static;
    /// What the token resolves to.
    type Resolved;
    /// The audit event that a resolution produces.
    type Event: Clone + Send + 'static;

    /// Resolves `token`; returns the resolved value and the audit event.
    fn resolve(&self, token: Self::Token) -> (Self::Resolved, Self::Event);
}

/// Logic that runs around each resolution: `pre_hook` sees the raw token
/// before the resolver runs, `post_hook` sees the event that it produced.
/// Both do nothing unless overridden.
pub trait Hook<T, E>: Send + Sync + 'static {
    /// Runs before resolution, with the raw token.
    fn pre_hook(&self, _token: &T) {
    }

    /// Runs after resolution, with the resolver's audit event.
    fn post_hook(&self, _event: &E) {
    }
}

} // verus!
