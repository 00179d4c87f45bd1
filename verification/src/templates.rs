//! The command line of a generated project, as values: what its options
//! hold once parsed, how they are built in code, and what the program
//! prints for them.

pub mod cli;
pub mod config;
pub mod dispatch;
