use cli_codegen::codegen::generators::CodeGenerator;
use cli_codegen::models::config::{CliConfig, Field, LicenseType, ValidationError};
use cli_codegen::text::{chars_of, decimal_i32, decimal_u64, same_text};

fn sample() -> CliConfig {
    CliConfig {
        name: "demo".to_string(),
        short_description: "d".to_string(),
        long_description: "D".to_string(),
        author: String::new(),
        copyright: String::new(),
        license: LicenseType::MIT,
        repository: String::new(),
        version: String::new(),
        sw_cli_url: String::new(),
        version_support: true,
        help_support: true,
    }
}

#[test]
fn valid_configuration_is_accepted() {
    assert_eq!(CodeGenerator::validate_config(&sample()), Ok(()));
}

#[test]
fn other_fields_do_not_matter_to_validation() {
    let mut config = sample();
    config.author = "someone".to_string();
    config.license = LicenseType::Custom(String::new());
    config.version_support = false;
    config.help_support = false;
    assert_eq!(CodeGenerator::validate_config(&config), Ok(()));
}

#[test]
fn empty_name_is_named() {
    let mut config = sample();
    config.name = String::new();
    assert_eq!(
        CodeGenerator::validate_config(&config),
        Err(ValidationError::EmptyField(Field::Name))
    );
}

#[test]
fn empty_short_description_is_named() {
    let mut config = sample();
    config.short_description = String::new();
    assert_eq!(
        CodeGenerator::validate_config(&config),
        Err(ValidationError::EmptyField(Field::ShortDescription))
    );
}

#[test]
fn empty_long_description_is_named() {
    let mut config = sample();
    config.long_description = String::new();
    assert_eq!(
        CodeGenerator::validate_config(&config),
        Err(ValidationError::EmptyField(Field::LongDescription))
    );
}

#[test]
fn first_empty_field_wins() {
    let mut config = sample();
    config.name = String::new();
    config.short_description = String::new();
    config.long_description = String::new();
    assert_eq!(
        CodeGenerator::validate_config(&config),
        Err(ValidationError::EmptyField(Field::Name))
    );
    config.name = "x".to_string();
    assert_eq!(
        CodeGenerator::validate_config(&config),
        Err(ValidationError::EmptyField(Field::ShortDescription))
    );
}

#[test]
fn a_blank_is_not_empty() {
    let mut config = sample();
    config.name = " ".to_string();
    assert_eq!(CodeGenerator::validate_config(&config), Ok(()));
}

#[test]
fn validation_messages() {
    assert_eq!(
        ValidationError::EmptyField(Field::Name).message(),
        "CLI name cannot be empty"
    );
    assert_eq!(
        ValidationError::EmptyField(Field::ShortDescription).message(),
        "Short description cannot be empty"
    );
    assert_eq!(
        ValidationError::EmptyField(Field::LongDescription).message(),
        "Long description cannot be empty"
    );
}

#[test]
fn crate_name_replaces_hyphens() {
    let mut config = sample();
    config.name = "my-cool-cli".to_string();
    assert_eq!(config.crate_name(), "my_cool_cli");
}

#[test]
fn crate_name_leaves_other_punctuation() {
    let mut config = sample();
    config.name = "a.b c+d-e_f/g".to_string();
    assert_eq!(config.crate_name(), "a.b c+d_e_f/g");
    config.name = "--".to_string();
    assert_eq!(config.crate_name(), "__");
    config.name = String::new();
    assert_eq!(config.crate_name(), "");
    config.name = "né-à".to_string();
    assert_eq!(config.crate_name(), "né_à");
}

#[test]
fn license_labels() {
    assert_eq!(LicenseType::MIT.as_str(), "MIT");
    assert_eq!(LicenseType::Apache2.as_str(), "Apache-2.0");
    assert_eq!(LicenseType::GPL3.as_str(), "GPL-3.0");
    assert_eq!(LicenseType::Custom("Foo".to_string()).as_str(), "Foo");
    assert_eq!(LicenseType::Custom(String::new()).as_str(), "");
}

#[test]
fn license_from_label() {
    assert_eq!(LicenseType::from_label("MIT"), LicenseType::MIT);
    assert_eq!(LicenseType::from_label("Apache-2.0"), LicenseType::Apache2);
    assert_eq!(LicenseType::from_label("GPL-3.0"), LicenseType::GPL3);
    assert_eq!(
        LicenseType::from_label("Custom"),
        LicenseType::Custom("Custom".to_string())
    );
    assert_eq!(
        LicenseType::from_label("Apache2"),
        LicenseType::Custom("Apache2".to_string())
    );
}

#[test]
fn license_from_flag() {
    assert_eq!(LicenseType::from_flag("MIT"), LicenseType::MIT);
    assert_eq!(LicenseType::from_flag("Apache2"), LicenseType::Apache2);
    assert_eq!(LicenseType::from_flag("GPL3"), LicenseType::GPL3);
    assert_eq!(
        LicenseType::from_flag("Apache-2.0"),
        LicenseType::Custom("Apache-2.0".to_string())
    );
    assert_eq!(
        LicenseType::from_flag("mit"),
        LicenseType::Custom("mit".to_string())
    );
}

#[test]
fn label_of_a_read_label_is_the_label() {
    for label in ["MIT", "Apache-2.0", "GPL-3.0", "Foo", ""] {
        assert_eq!(LicenseType::from_label(label).as_str(), label);
    }
}

#[test]
fn license_clone_is_equal() {
    let license = LicenseType::Custom("Foo".to_string());
    assert_eq!(license.clone(), license);
    assert_eq!(LicenseType::GPL3.clone(), LicenseType::GPL3);
}

#[test]
fn copyright_line_of_a_year() {
    assert_eq!(CliConfig::copyright_in(2025), "Copyright (c) 2025");
    assert_eq!(CliConfig::copyright_in(0), "Copyright (c) 0");
    assert_eq!(CliConfig::copyright_in(-308), "Copyright (c) -308");
}

#[test]
fn initial_configuration() {
    let config = CliConfig::initial(2024);
    assert_eq!(config.name, "my-cli");
    assert_eq!(config.short_description, "A brief description of the CLI");
    assert_eq!(
        config.long_description,
        "A longer description of what this CLI does"
    );
    assert_eq!(config.author, "Your Name");
    assert_eq!(config.copyright, "Copyright (c) 2024");
    assert_eq!(config.license, LicenseType::MIT);
    assert_eq!(config.repository, "https://github.com/yourusername/my-cli");
    assert_eq!(config.version, "0.1.0");
    assert_eq!(
        config.sw_cli_url,
        "https://github.com/softwarewrighter/sw-cli.git"
    );
    assert!(config.version_support);
    assert!(config.help_support);
    assert_eq!(CodeGenerator::validate_config(&config), Ok(()));
}

#[test]
fn default_is_initial_of_this_year() {
    let before = chrono::Datelike::year(&chrono::Utc::now().date_naive());
    let config = CliConfig::default();
    let after = chrono::Datelike::year(&chrono::Utc::now().date_naive());
    assert!(config == CliConfig::initial(before) || config == CliConfig::initial(after));
    assert!(before >= 2024);
}

#[test]
fn options_fall_back_to_initial_values() {
    let config = CliConfig::from_options_in(
        2030,
        "tool".to_string(),
        None,
        None,
        None,
        "GPL3",
        false,
        true,
    );
    let mut expected = CliConfig::initial(2030);
    expected.name = "tool".to_string();
    expected.license = LicenseType::GPL3;
    expected.version_support = false;
    assert_eq!(config, expected);
}

#[test]
fn options_that_are_given_are_taken() {
    let config = CliConfig::from_options_in(
        2030,
        "tool".to_string(),
        Some("short".to_string()),
        Some("long".to_string()),
        Some("(c) me".to_string()),
        "BSD",
        true,
        false,
    );
    assert_eq!(config.name, "tool");
    assert_eq!(config.short_description, "short");
    assert_eq!(config.long_description, "long");
    assert_eq!(config.copyright, "(c) me");
    assert_eq!(config.license, LicenseType::Custom("BSD".to_string()));
    assert_eq!(config.author, "Your Name");
    assert_eq!(config.version, "0.1.0");
    assert!(config.version_support);
    assert!(!config.help_support);
}

#[test]
fn options_of_today() {
    let given = CliConfig::from_options(
        "tool".to_string(),
        None,
        None,
        Some("(c) me".to_string()),
        "MIT",
        true,
        true,
    );
    assert_eq!(given.copyright, "(c) me");
    assert_eq!(given.short_description, "A brief description of the CLI");
    let before = chrono::Datelike::year(&chrono::Utc::now().date_naive());
    let dated = CliConfig::from_options("tool".to_string(), None, None, None, "MIT", true, true);
    let after = chrono::Datelike::year(&chrono::Utc::now().date_naive());
    assert!(
        dated.copyright == CliConfig::copyright_in(before)
            || dated.copyright == CliConfig::copyright_in(after)
    );
}

#[test]
fn configuration_clone_is_equal() {
    let config = CliConfig::initial(2024);
    assert_eq!(config.clone(), config);
}

#[test]
fn decimal_numerals() {
    assert_eq!(decimal_u64(0), "0");
    assert_eq!(decimal_u64(7), "7");
    assert_eq!(decimal_u64(10), "10");
    assert_eq!(decimal_u64(1234567890), "1234567890");
    assert_eq!(decimal_u64(u64::MAX), "18446744073709551615");
    assert_eq!(decimal_i32(0), "0");
    assert_eq!(decimal_i32(-1), "-1");
    assert_eq!(decimal_i32(i32::MAX), "2147483647");
    assert_eq!(decimal_i32(i32::MIN), "-2147483648");
}

#[test]
fn text_equality() {
    assert!(same_text("abc", "abc"));
    assert!(!same_text("abc", "abd"));
    assert!(!same_text("abc", "ab"));
    assert!(same_text("", ""));
}

#[test]
fn characters_of_a_text() {
    assert_eq!(chars_of(""), Vec::<char>::new());
    assert_eq!(chars_of("a-é🦀"), vec!['a', '-', 'é', '🦀']);
}
