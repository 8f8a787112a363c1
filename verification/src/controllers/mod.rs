//! The controllers that the host can run.

pub mod source_github_keys;
