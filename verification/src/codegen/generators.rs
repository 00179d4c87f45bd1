//! The entry points of the engine.

use vstd::prelude::*;
use crate::codegen::manifest::Profile;
use crate::codegen::plan::{Generation, GenerationView};
use crate::codegen::substitute::{render, substitute};
use crate::models::config::{CliConfig, Field, ValidationError};

pub use crate::models::config::GeneratedFiles;

verus! {

/// The code generator: validation of a configuration and generation of a
/// project from it.
pub struct CodeGenerator;

impl CodeGenerator {
    /// Checks that a configuration can be generated from: `name`,
    /// `short_description` and `long_description` must not be empty. The
    /// first of them that is empty is named in the error; no other field is
    /// looked at.
    pub fn validate_config(config: &CliConfig) -> (verdict: Result<(), ValidationError>)
        ensures
            verdict == config@.validation(),
    {
        if config.name.as_str().is_empty() {
            return Err(ValidationError::EmptyField(Field::Name));
        }
        if config.short_description.as_str().is_empty() {
            return Err(ValidationError::EmptyField(Field::ShortDescription));
        }
        if config.long_description.as_str().is_empty() {
            return Err(ValidationError::EmptyField(Field::LongDescription));
        }
        Ok(())
    }

    /// Begins the generation of a whole project from `config` below
    /// `output_dir`. The run that is returned names the first thing to do;
    /// see [`Generation`].
    pub fn generate_files(config: &CliConfig, output_dir: &str) -> (run: Generation)
        ensures
            run@ == GenerationView::start(config@, output_dir@, Profile::Full),
            run@.well_formed(),
    {
        Generation::begin(config.clone(), output_dir, Profile::Full)
    }

    /// Renders the three files of the minimal profile from the texts of
    /// their templates, without touching any file.
    pub fn generate_minimal(
        config: &CliConfig,
        build_template: &str,
        config_template: &str,
        dispatch_template: &str,
    ) -> (files: GeneratedFiles)
        ensures
            files.build_rs@ == substitute(build_template@, config@),
            files.config_rs@ == substitute(config_template@, config@),
            files.dispatch_rs@ == substitute(dispatch_template@, config@),
    {
        GeneratedFiles {
            build_rs: render(build_template, config),
            config_rs: render(config_template, config),
            dispatch_rs: render(dispatch_template, config),
        }
    }
}

} // verus!
