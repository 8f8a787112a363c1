//! API types shared by the GitOps Toolkit resources.

pub mod annotations;
pub mod conditions;
pub mod decimal;
pub mod duration;
pub mod formatting;
pub mod grammar;
pub mod parse_error;
pub mod round_trip;
pub mod scan;
