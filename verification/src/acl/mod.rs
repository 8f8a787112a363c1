//! Access control between namespaces.

pub mod conditions;
pub mod types;
