//! What controllers share while they reconcile.

pub mod metrics;
