//! The resources of the API groups that the controllers reconcile.

pub mod source_github_keys;
