use cli_codegen::templates::cli::Cli;
use cli_codegen::templates::config::{CliConfig, CliConfigBuilder, Commands};
use cli_codegen::templates::dispatch::{CliDispatcher, CommandHandler, ExampleHandler};

#[test]
fn builder_starts_with_nothing_set() {
    let config = CliConfigBuilder::new().build();
    assert_eq!(
        config,
        CliConfig { command: None, show_version: false, verbose: false }
    );
}

#[test]
fn builder_sets_each_field() {
    let config = CliConfigBuilder::new().show_version(true).build();
    assert_eq!(
        config,
        CliConfig { command: None, show_version: true, verbose: false }
    );
    let config = CliConfigBuilder::new().verbose(true).build();
    assert_eq!(
        config,
        CliConfig { command: None, show_version: false, verbose: true }
    );
    let config = CliConfigBuilder::new()
        .command(Commands::Example { name: "you".to_string() })
        .build();
    assert_eq!(
        config,
        CliConfig {
            command: Some(Commands::Example { name: "you".to_string() }),
            show_version: false,
            verbose: false,
        }
    );
}

#[test]
fn builder_keeps_what_was_set_before() {
    let config = CliConfigBuilder::new()
        .verbose(true)
        .command(Commands::Example { name: "a".to_string() })
        .show_version(true)
        .verbose(false)
        .command(Commands::Example { name: "b".to_string() })
        .build();
    assert_eq!(
        config,
        CliConfig {
            command: Some(Commands::Example { name: "b".to_string() }),
            show_version: true,
            verbose: false,
        }
    );
}

#[test]
fn version_is_printed_first() {
    let config = CliConfigBuilder::new()
        .show_version(true)
        .command(Commands::Example { name: "you".to_string() })
        .build();
    assert_eq!(config.execute("demo", "d", "1.0"), vec!["demo v1.0"]);
}

#[test]
fn example_command_greets() {
    let config = CliConfigBuilder::new()
        .command(Commands::Example { name: "world".to_string() })
        .build();
    assert_eq!(config.execute("demo", "d", "1.0"), vec!["Hello, world!"]);
}

#[test]
fn without_a_command_the_description_is_printed() {
    let config = CliConfigBuilder::new().verbose(true).build();
    assert_eq!(
        config.execute("demo", "A demo", "1.0"),
        vec!["A demo", "Use --help for more information."]
    );
}

#[test]
fn dispatch_runs_the_example() {
    let config = CliConfigBuilder::new()
        .command(Commands::Example { name: "you".to_string() })
        .build();
    assert_eq!(
        CliDispatcher::dispatch(&config),
        Ok(vec!["Executing example command with name: you".to_string()])
    );
}

#[test]
fn dispatch_without_a_command_does_nothing() {
    let config = CliConfigBuilder::new().show_version(true).build();
    assert_eq!(CliDispatcher::dispatch(&config), Ok(Vec::new()));
}

#[test]
fn example_handler_runs_by_itself() {
    let handler = ExampleHandler { name: "me".to_string() };
    assert_eq!(
        handler.handle(),
        Ok(vec!["Executing example command with name: me".to_string()])
    );
}

#[test]
fn command_clone_is_equal() {
    let command = Commands::Example { name: "x".to_string() };
    assert_eq!(command.clone(), command);
}

#[test]
fn options_of_the_full_skeleton() {
    let cli = Cli { verbose: true, dry_run: false };
    assert!(cli.verbose);
    assert!(!cli.dry_run);
    assert_eq!(cli, cli.clone());
}
