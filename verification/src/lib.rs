//! The decisions of an edge-side proxy that warms backend functions on
//! request: the shared-secret check, the allowlist of function names, the
//! fixed-window rate limit and the order in which they apply. Reading the
//! counter store, sending replies and the detached warm-up call are left to
//! the program around it.

pub mod handler;
pub mod rate_limit;
pub mod text;
pub mod validator;

pub use rate_limit::rate_limit_key;
pub use validator::{build_target_url, verify_allowlist, verify_auth};
