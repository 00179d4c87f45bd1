//! Scaffolding for command-line projects.
//!
//! A [`models::config::CliConfig`] describes the project: its name, its
//! descriptions, its license and the like. The engine renders a fixed set
//! of templates under it, replacing each `{{ token }}` placeholder by the
//! value that the configuration gives to the token, and lays the results
//! out as a project tree.
//!
//! The library itself touches no file. A generation is a
//! [`codegen::plan::Generation`]: it names the next thing to do to the file
//! system, and is advanced by what came of it.
//!
//! ```text
//! let mut run = CodeGenerator::generate_files(&config, "out");
//! loop {
//!     match run.pending() {
//!         Action::Finish(result) => return result,
//!         action => run = run.advance(perform(action)),
//!     }
//! }
//! ```
//!
//! Every function comes with a contract over the texts involved, and the
//! modules state what follows for whole templates and whole runs:
//!
//! - [`codegen::substitute`]: a value stands wherever its placeholder
//!   stood, and what is not a placeholder is not touched;
//! - [`codegen::laws`]: where no value holds an opening brace and the
//!   template uses double braces for placeholders alone, no placeholder is
//!   left behind, and the one pass gives what replacing token after token
//!   gives;
//! - [`codegen::runs`]: a run that ends in success has made every
//!   directory, read every template below the first place where templates
//!   were found, written what each became and made the scripts executable;
//!   a run without templates touches no file; the first failure ends a run;
//!   every run ends.

pub mod text;
pub mod models;
pub mod codegen;
pub mod service;
pub mod templates;
