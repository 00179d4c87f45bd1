use cli_codegen::codegen::generators::{CodeGenerator, GeneratedFiles};
use cli_codegen::codegen::substitute::render;
use cli_codegen::codegen::tokens::Token;
use cli_codegen::models::config::{CliConfig, LicenseType};

fn sample() -> CliConfig {
    CliConfig {
        name: "my-tool".to_string(),
        short_description: "short".to_string(),
        long_description: "long".to_string(),
        author: "Ann".to_string(),
        copyright: "(c) Ann".to_string(),
        license: LicenseType::Apache2,
        repository: "https://example.org/my-tool".to_string(),
        version: "1.2.3".to_string(),
        sw_cli_url: "https://example.org/sw".to_string(),
        version_support: true,
        help_support: false,
    }
}

#[test]
fn text_without_placeholders_is_unchanged() {
    let config = sample();
    assert_eq!(render("", &config), "");
    assert_eq!(render("fn main() { }", &config), "fn main() { }");
    assert_eq!(render("{ name }", &config), "{ name }");
    assert_eq!(render("{{name}}", &config), "{{name}}");
    assert_eq!(render("{{ name}}", &config), "{{ name}}");
    assert_eq!(render("{{ name }", &config), "{{ name }");
}

#[test]
fn every_token_is_replaced() {
    let config = sample();
    assert_eq!(render("{{ name }}", &config), "my-tool");
    assert_eq!(render("{{ crate_name }}", &config), "my_tool");
    assert_eq!(render("{{ short_description }}", &config), "short");
    assert_eq!(render("{{ long_description }}", &config), "long");
    assert_eq!(render("{{ author }}", &config), "Ann");
    assert_eq!(render("{{ copyright }}", &config), "(c) Ann");
    assert_eq!(render("{{ license }}", &config), "Apache-2.0");
    assert_eq!(render("{{ repository }}", &config), "https://example.org/my-tool");
    assert_eq!(render("{{ version }}", &config), "1.2.3");
    assert_eq!(render("{{ sw_cli_url }}", &config), "https://example.org/sw");
}

#[test]
fn placeholder_texts() {
    assert_eq!(Token::Name.placeholder_str(), "{{ name }}");
    assert_eq!(Token::CrateName.placeholder_str(), "{{ crate_name }}");
    assert_eq!(Token::ShortDescription.placeholder_str(), "{{ short_description }}");
    assert_eq!(Token::LongDescription.placeholder_str(), "{{ long_description }}");
    assert_eq!(Token::Author.placeholder_str(), "{{ author }}");
    assert_eq!(Token::Copyright.placeholder_str(), "{{ copyright }}");
    assert_eq!(Token::License.placeholder_str(), "{{ license }}");
    assert_eq!(Token::Repository.placeholder_str(), "{{ repository }}");
    assert_eq!(Token::Version.placeholder_str(), "{{ version }}");
    assert_eq!(Token::SwCliUrl.placeholder_str(), "{{ sw_cli_url }}");
}

#[test]
fn values_stand_in_place() {
    let config = sample();
    assert_eq!(
        render("name = \"{{ name }}\"\nversion = \"{{ version }}\"\n", &config),
        "name = \"my-tool\"\nversion = \"1.2.3\"\n"
    );
    assert_eq!(
        render("use {{ crate_name }}::cli::Cli;", &config),
        "use my_tool::cli::Cli;"
    );
    assert_eq!(
        render("{{ name }}{{ name }} {{ author }}", &config),
        "my-toolmy-tool Ann"
    );
    assert_eq!(
        render("println!(\"{{ name }} v{}\", v);", &config),
        "println!(\"my-tool v{}\", v);"
    );
}

#[test]
fn unknown_tokens_are_left() {
    let config = sample();
    assert_eq!(
        render("{{ git_hash }} {{ name }} {{ Name }}", &config),
        "{{ git_hash }} my-tool {{ Name }}"
    );
}

#[test]
fn values_are_not_read_again() {
    let mut config = sample();
    config.name = "{{ author }}".to_string();
    config.author = "{{ name }}".to_string();
    assert_eq!(render("{{ name }}", &config), "{{ author }}");
    assert_eq!(render("{{ author }}", &config), "{{ name }}");
    assert_eq!(render("{{ name }}/{{ author }}", &config), "{{ author }}/{{ name }}");
}

#[test]
fn reading_goes_from_left_to_right() {
    let config = sample();
    assert_eq!(render("{{{ name }}}", &config), "{my-tool}");
    assert_eq!(render("{{ {{ name }} }}", &config), "{{ my-tool }}");
    assert_eq!(render("{{ name }}}}", &config), "my-tool}}");
    assert_eq!(render("{{ na{{ name }}me }}", &config), "{{ namy-toolme }}");
}

#[test]
fn empty_values_leave_nothing() {
    let mut config = sample();
    config.author = String::new();
    assert_eq!(render("by {{ author }}.", &config), "by .");
    assert_eq!(render("{{ author }}", &config), "");
}

#[test]
fn text_beyond_ascii_is_kept() {
    let mut config = sample();
    config.author = "Zoë 🦀".to_string();
    assert_eq!(
        render("© {{ author }} — été", &config),
        "© Zoë 🦀 — été"
    );
}

#[test]
fn custom_license_label_is_put_in() {
    let mut config = sample();
    config.license = LicenseType::Custom("Foo".to_string());
    assert_eq!(render("license = \"{{ license }}\"", &config), "license = \"Foo\"");
    config.license = LicenseType::MIT;
    assert_eq!(render("license = \"{{ license }}\"", &config), "license = \"MIT\"");
    config.license = LicenseType::GPL3;
    assert_eq!(render("license = \"{{ license }}\"", &config), "license = \"GPL-3.0\"");
}

#[test]
fn no_recognised_placeholder_is_left() {
    let config = sample();
    let template = "{{ name }} {{ crate_name }} {{ short_description }} {{ long_description }} \
                    {{ author }} {{ copyright }} {{ license }} {{ repository }} {{ version }} \
                    {{ sw_cli_url }} fn f() { g(\"{}\") }";
    let out = render(template, &config);
    for token in [
        Token::Name,
        Token::CrateName,
        Token::ShortDescription,
        Token::LongDescription,
        Token::Author,
        Token::Copyright,
        Token::License,
        Token::Repository,
        Token::Version,
        Token::SwCliUrl,
    ] {
        assert!(!out.contains(token.placeholder_str()));
    }
    assert_eq!(
        out,
        "my-tool my_tool short long Ann (c) Ann Apache-2.0 https://example.org/my-tool 1.2.3 \
         https://example.org/sw fn f() { g(\"{}\") }"
    );
}

#[test]
fn rendering_twice_gives_the_same_text() {
    let config = sample();
    let template = "{{ name }} by {{ author }}";
    assert_eq!(render(template, &config), render(template, &config));
}

#[test]
fn minimal_profile_in_memory() {
    let config = sample();
    let files = CodeGenerator::generate_minimal(
        &config,
        "// build {{ name }} {{ version }}",
        "// config {{ short_description }}",
        "// dispatch {{ git_hash }}",
    );
    assert_eq!(
        files,
        GeneratedFiles {
            build_rs: "// build my-tool 1.2.3".to_string(),
            config_rs: "// config short".to_string(),
            dispatch_rs: "// dispatch {{ git_hash }}".to_string(),
        }
    );
    assert_eq!(files.clone(), files);
}

/// Replaces the tokens one after the other, each in a scan of the whole
/// text.
fn in_turns(template: &str, config: &CliConfig) -> String {
    template
        .replace("{{ name }}", &config.name)
        .replace("{{ crate_name }}", &config.crate_name())
        .replace("{{ short_description }}", &config.short_description)
        .replace("{{ long_description }}", &config.long_description)
        .replace("{{ author }}", &config.author)
        .replace("{{ copyright }}", &config.copyright)
        .replace("{{ license }}", config.license.as_str())
        .replace("{{ repository }}", &config.repository)
        .replace("{{ version }}", &config.version)
        .replace("{{ sw_cli_url }}", &config.sw_cli_url)
}

#[test]
fn one_pass_agrees_with_turns_on_ordinary_input() {
    let config = sample();
    for template in [
        "",
        "plain",
        "{{ name }}",
        "use {{ crate_name }}::cli::Cli;\nfn main() { println!(\"{{ name }} v{}\", 1); }",
        "{{ version }}{{ version }} {{ unknown }} {{ sw_cli_url }} } { }} {",
        "[package]\nname = \"{{ name }}\"\nlicense = \"{{ license }}\"\nauthors = [\"{{ author }}\"]",
    ] {
        assert_eq!(render(template, &config), in_turns(template, &config));
    }
}

#[test]
fn one_pass_differs_from_turns_where_values_hold_placeholders() {
    let mut config = sample();
    config.name = "{{ author }}".to_string();
    assert_eq!(render("{{ name }}", &config), "{{ author }}");
    assert_eq!(in_turns("{{ name }}", &config), "Ann");
}
