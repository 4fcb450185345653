//! Token resolution with hooks that run before and after each resolution.
pub mod dispatch;
pub mod event;
pub mod hooks;
pub mod proxy;

pub use event::DefaultAuditEvent;
pub use hooks::{Hook, TokenResolver};
pub use proxy::TokenProxy;
