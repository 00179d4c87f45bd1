//! The generator engine: placeholder substitution and the generation plan.

pub mod tokens;
pub mod substitute;
pub mod laws;
pub mod manifest;
pub mod errors;
pub mod plan;
pub mod runs;
pub mod generators;
