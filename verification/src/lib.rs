//! Building blocks for hosting GitOps Toolkit controllers: shared API types,
//! reconcile metrics, and the introspection and lifecycle rules of the
//! controller host.

pub mod acl;
pub mod api;
pub mod cap;
pub mod controllers;
pub mod cops;
pub mod meta;
pub mod text;
