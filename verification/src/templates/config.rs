//! The options of the minimal project skeleton, their builder, and what
//! the program prints for them.

use vstd::prelude::*;
use crate::text::views;

verus! {

/// The subcommands of a generated program.
#[derive(Debug, PartialEq, Eq)]
pub enum Commands {
    /// The example command, which greets `name`.
    Example { name: String },
}

/// What a [`Commands`] is to a contract.
pub enum CommandsView {
    Example { name: Seq<char> },
}

impl View for Commands {
    type V = CommandsView;

    open spec fn view(&self) -> CommandsView {
        match self {
            Commands::Example { name } => CommandsView::Example { name: name@ },
        }
    }
}

impl Clone for Commands {
    fn clone(&self) -> (copy: Commands)
        ensures
            copy@ == self@,
    {
        match self {
            Commands::Example { name } => Commands::Example { name: name.clone() },
        }
    }
}

/// The view of an optional subcommand.
pub open spec fn optional_command(command: Option<Commands>) -> Option<CommandsView> {
    match command {
        Some(command) => Some(command@),
        None => None,
    }
}

/// The options of a generated program, once its command line is parsed.
#[derive(Debug, PartialEq, Eq)]
pub struct CliConfig {
    pub command: Option<Commands>,
    pub show_version: bool,
    pub verbose: bool,
}

/// What a [`CliConfig`] is to a contract.
pub struct CliConfigView {
    pub command: Option<CommandsView>,
    pub show_version: bool,
    pub verbose: bool,
}

impl View for CliConfig {
    type V = CliConfigView;

    open spec fn view(&self) -> CliConfigView {
        CliConfigView {
            command: optional_command(self.command),
            show_version: self.show_version,
            verbose: self.verbose,
        }
    }
}

impl CliConfigView {
    /// The lines that the program prints: its name and version where the
    /// version was asked for; else the greeting of the example command;
    /// else, without a subcommand, its short description and a hint.
    pub open spec fn output(
        self,
        program: Seq<char>,
        about: Seq<char>,
        version: Seq<char>,
    ) -> Seq<Seq<char>> {
        if self.show_version {
            seq![program + " v"@ + version]
        } else {
            match self.command {
                Some(CommandsView::Example { name }) => seq!["Hello, "@ + name + "!"@],
                None => seq![about, "Use --help for more information."@],
            }
        }
    }
}

impl CliConfig {
    /// The lines that the program prints for these options. `program` is
    /// the name of the project, `about` its short description, and
    /// `version` the version it was built as.
    pub fn execute(&self, program: &str, about: &str, version: &str) -> (lines: Vec<String>)
        ensures
            views(lines@) == self@.output(program@, about@, version@),
    {
        let mut lines: Vec<String> = Vec::new();
        if self.show_version {
            let mut line = program.to_owned();
            line.append(" v");
            line.append(version);
            lines.push(line);
            assert(views(lines@) =~= self@.output(program@, about@, version@));
            return lines;
        }
        match &self.command {
            Some(Commands::Example { name }) => {
                let mut line = "Hello, ".to_owned();
                line.append(name.as_str());
                line.append("!");
                lines.push(line);
            },
            None => {
                lines.push(about.to_owned());
                lines.push("Use --help for more information.".to_owned());
            },
        }
        assert(views(lines@) =~= self@.output(program@, about@, version@));
        lines
    }
}

/// Builds a [`CliConfig`] step by step.
pub struct CliConfigBuilder {
    show_version: bool,
    verbose: bool,
    command: Option<Commands>,
}

impl View for CliConfigBuilder {
    type V = CliConfigView;

    closed spec fn view(&self) -> CliConfigView {
        CliConfigView {
            command: optional_command(self.command),
            show_version: self.show_version,
            verbose: self.verbose,
        }
    }
}

impl CliConfigBuilder {
    /// A builder with nothing set: no subcommand, and both switches off.
    pub fn new() -> (builder: CliConfigBuilder)
        ensures
            builder@ == (CliConfigView { command: None, show_version: false, verbose: false }),
    {
        CliConfigBuilder { show_version: false, verbose: false, command: None }
    }

    /// Sets whether the version is asked for.
    pub fn show_version(self, show: bool) -> (builder: CliConfigBuilder)
        ensures
            builder@ == (CliConfigView { show_version: show, ..self@ }),
    {
        CliConfigBuilder { show_version: show, verbose: self.verbose, command: self.command }
    }

    /// Sets whether verbose output is asked for.
    pub fn verbose(self, verbose: bool) -> (builder: CliConfigBuilder)
        ensures
            builder@ == (CliConfigView { verbose, ..self@ }),
    {
        CliConfigBuilder { show_version: self.show_version, verbose, command: self.command }
    }

    /// Sets the subcommand.
    pub fn command(self, command: Commands) -> (builder: CliConfigBuilder)
        ensures
            builder@ == (CliConfigView { command: Some(command@), ..self@ }),
    {
        CliConfigBuilder {
            show_version: self.show_version,
            verbose: self.verbose,
            command: Some(command),
        }
    }

    /// The options that were built.
    pub fn build(self) -> (config: CliConfig)
        ensures
            config@ == self@,
    {
        CliConfig {
            show_version: self.show_version,
            verbose: self.verbose,
            command: self.command,
        }
    }
}

} // verus!
