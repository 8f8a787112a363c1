//! The host that runs controllers of many resource kinds in one process.

pub mod cli;
pub mod controller;
pub mod lifecycle;
pub mod report;
pub mod signals;
