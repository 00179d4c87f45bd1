use cli_codegen::models::config::{CliConfig, Field, ValidationError};
use cli_codegen::service::{sanitize_name, success_message, work_directory};

#[test]
fn safe_names_are_kept() {
    assert_eq!(sanitize_name("my-cool_cli2"), "my-cool_cli2");
    assert_eq!(sanitize_name(""), "");
    assert_eq!(sanitize_name("été٣"), "été٣");
}

#[test]
fn unsafe_characters_become_underscores() {
    assert_eq!(sanitize_name("my cli"), "my_cli");
    assert_eq!(sanitize_name("../../etc/passwd"), "______etc_passwd");
    assert_eq!(sanitize_name("a.b:c\\d"), "a_b_c_d");
    assert_eq!(sanitize_name("🦀"), "_");
}

#[test]
fn work_directory_of_a_valid_configuration() {
    let mut config = CliConfig::initial(2024);
    assert_eq!(work_directory(&config), Ok("work/my-cli".to_string()));
    config.name = "../x y".to_string();
    assert_eq!(work_directory(&config), Ok("work/___x_y".to_string()));
}

#[test]
fn work_directory_of_an_invalid_configuration() {
    let mut config = CliConfig::initial(2024);
    config.long_description = String::new();
    assert_eq!(
        work_directory(&config),
        Err(ValidationError::EmptyField(Field::LongDescription))
    );
    config.name = String::new();
    assert_eq!(
        work_directory(&config),
        Err(ValidationError::EmptyField(Field::Name))
    );
}

#[test]
fn success_sentence() {
    assert_eq!(
        success_message("my-cli"),
        "CLI code generated successfully for 'my-cli'"
    );
    assert_eq!(success_message(""), "CLI code generated successfully for ''");
}
