//! Dispatch of a parsed command line to the handler of its subcommand.

use vstd::prelude::*;
use crate::templates::config::{CliConfig, CliConfigView, Commands, CommandsView};
use crate::text::views;

verus! {

/// Runs the subcommand that the options name.
pub struct CliDispatcher;

/// The line that the example command prints for `name`.
pub open spec fn example_line(name: Seq<char>) -> Seq<char> {
    "Executing example command with name: "@ + name
}

impl CliConfigView {
    /// The lines that dispatching prints: that of the example command, or
    /// nothing where no subcommand was given.
    pub open spec fn dispatched(self) -> Seq<Seq<char>> {
        match self.command {
            Some(CommandsView::Example { name }) => seq![example_line(name)],
            None => Seq::empty(),
        }
    }
}

impl CliDispatcher {
    /// Runs the subcommand of `config` and returns the lines it prints.
    /// Without a subcommand there is nothing to do. No subcommand of the
    /// skeleton can fail, so the result is always `Ok`.
    pub fn dispatch(config: &CliConfig) -> (outcome: Result<Vec<String>, String>)
        ensures
            outcome is Ok,
            views(outcome->Ok_0@) == config@.dispatched(),
    {
        match &config.command {
            Some(Commands::Example { name }) => Self::handle_example(name.as_str()),
            None => {
                let lines: Vec<String> = Vec::new();
                assert(views(lines@) =~= config@.dispatched());
                Ok(lines)
            },
        }
    }

    /// Runs the example command for `name`.
    fn handle_example(name: &str) -> (outcome: Result<Vec<String>, String>)
        ensures
            outcome is Ok,
            views(outcome->Ok_0@) == seq![example_line(name@)],
    {
        let mut line = "Executing example command with name: ".to_owned();
        line.append(name);
        let mut lines: Vec<String> = Vec::new();
        lines.push(line);
        assert(views(lines@) =~= seq![example_line(name@)]);
        Ok(lines)
    }
}

/// A subcommand that can be run by itself: the other way to dispatch.
pub trait CommandHandler {
    /// Runs the subcommand and returns the lines it prints, or why it
    /// failed.
    fn handle(&self) -> Result<Vec<String>, String>;
}

/// The example command with its argument.
#[derive(Debug, PartialEq, Eq)]
pub struct ExampleHandler {
    pub name: String,
}

impl CommandHandler for ExampleHandler {
    fn handle(&self) -> (outcome: Result<Vec<String>, String>)
        ensures
            outcome is Ok,
            views(outcome->Ok_0@) == seq![example_line(self.name@)],
    {
        CliDispatcher::handle_example(self.name.as_str())
    }
}

} // verus!
