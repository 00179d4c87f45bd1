//! The data that drives a generation run.

pub mod config;
