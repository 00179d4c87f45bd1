use cli_codegen::codegen::errors::GenerationError;
use cli_codegen::codegen::generators::CodeGenerator;
use cli_codegen::codegen::manifest::{
    directories, join, manifest, manifest_len, template_candidates, ManifestEntry, Profile,
    EXECUTABLE_MODE,
};
use cli_codegen::codegen::plan::{Action, Event, Generation};
use cli_codegen::models::config::{CliConfig, LicenseType};
use std::collections::BTreeMap;

fn demo() -> CliConfig {
    CliConfig {
        name: "demo".to_string(),
        short_description: "d".to_string(),
        long_description: "D".to_string(),
        author: String::new(),
        copyright: String::new(),
        license: LicenseType::MIT,
        repository: String::new(),
        version: String::new(),
        sw_cli_url: String::new(),
        version_support: true,
        help_support: true,
    }
}

/// A file system in memory: what the driver below does to it is what a
/// caller of the library does to the real one.
struct Disk {
    template_dirs: Vec<String>,
    templates: BTreeMap<String, String>,
    directories: Vec<String>,
    files: BTreeMap<String, String>,
    modes: BTreeMap<String, u32>,
    probed: Vec<String>,
    read_only: bool,
    locked: Vec<String>,
}

impl Disk {
    fn new() -> Disk {
        Disk {
            template_dirs: Vec::new(),
            templates: BTreeMap::new(),
            directories: Vec::new(),
            files: BTreeMap::new(),
            modes: BTreeMap::new(),
            probed: Vec::new(),
            read_only: false,
            locked: Vec::new(),
        }
    }

    fn with_templates(base: &str, profile: Profile) -> Disk {
        let mut disk = Disk::new();
        disk.template_dirs.push(base.to_string());
        for entry in manifest(profile) {
            disk.templates.insert(
                format!("{}/{}", base, entry.template),
                format!("# {} of {{{{ name }}}} ({{{{ crate_name }}}})\n", entry.template),
            );
        }
        disk
    }

    fn perform(&mut self, action: Action) -> Event {
        match action {
            Action::CreateDirectory { path } => {
                if self.read_only {
                    Event::Failed("Read-only file system".to_string())
                } else {
                    if !self.directories.contains(&path) {
                        self.directories.push(path);
                    }
                    Event::Completed
                }
            }
            Action::ProbeDirectory { path } => {
                let there = self.template_dirs.contains(&path);
                self.probed.push(path);
                Event::Found(there)
            }
            Action::ReadTemplate { path } => match self.templates.get(&path) {
                Some(text) => Event::Content(text.clone()),
                None => Event::Failed("No such file or directory".to_string()),
            },
            Action::WriteFile { path, content } => {
                if self.locked.contains(&path) {
                    Event::Failed("Permission denied".to_string())
                } else {
                    self.files.insert(path, content);
                    Event::Completed
                }
            }
            Action::MakeExecutable { path, mode } => {
                if self.files.contains_key(&path) {
                    self.modes.insert(path, mode);
                    Event::Completed
                } else {
                    Event::Failed("No such file or directory".to_string())
                }
            }
            Action::Finish(_) => unreachable!(),
        }
    }
}

fn drive(mut run: Generation, disk: &mut Disk) -> Result<(), GenerationError> {
    loop {
        match run.pending() {
            Action::Finish(result) => return result,
            action => {
                let event = disk.perform(action);
                run = run.advance(event);
            }
        }
    }
}

#[test]
fn minimal_profile_end_to_end() {
    let mut disk = Disk::new();
    disk.template_dirs.push("templates".to_string());
    disk.templates.insert(
        "templates/build.rs".to_string(),
        "println!(\"cargo:rustc-env=CLI_NAME={{ name }}\"); // {{ git_hash }}".to_string(),
    );
    disk.templates.insert(
        "templates/config.rs".to_string(),
        "#[clap(name = \"{{ name }}\", about = \"{{ short_description }}\")] /// {{ long_description }}"
            .to_string(),
    );
    disk.templates.insert(
        "templates/dispatch.rs".to_string(),
        "pub struct CliDispatcher;".to_string(),
    );
    let run = Generation::begin(demo(), "out", Profile::Minimal);
    assert_eq!(drive(run, &mut disk), Ok(()));
    let written: Vec<&String> = disk.files.keys().collect();
    assert_eq!(written, vec!["out/build.rs", "out/config.rs", "out/dispatch.rs"]);
    assert_eq!(
        disk.files["out/build.rs"],
        "println!(\"cargo:rustc-env=CLI_NAME=demo\"); // {{ git_hash }}"
    );
    assert_eq!(
        disk.files["out/config.rs"],
        "#[clap(name = \"demo\", about = \"d\")] /// D"
    );
    assert_eq!(disk.files["out/dispatch.rs"], "pub struct CliDispatcher;");
    for text in disk.files.values() {
        assert!(!text.contains("{{ name }}"));
        assert!(!text.contains("{{ short_description }}"));
        assert!(!text.contains("{{ long_description }}"));
    }
    assert_eq!(disk.directories, vec!["out"]);
    assert!(disk.modes.is_empty());
}

#[test]
fn full_profile_writes_the_whole_project() {
    let mut disk = Disk::with_templates("templates", Profile::Full);
    let run = CodeGenerator::generate_files(&demo(), "work/demo");
    assert_eq!(drive(run, &mut disk), Ok(()));
    assert_eq!(
        disk.directories,
        vec!["work/demo", "work/demo/src", "work/demo/scripts", "work/demo/lib"]
    );
    let mut expected = vec![
        "work/demo/src/main.rs",
        "work/demo/src/cli.rs",
        "work/demo/src/lib.rs",
        "work/demo/build.rs",
        "work/demo/Cargo.toml",
        "work/demo/COPYRIGHT",
        "work/demo/.gitmodules",
        "work/demo/.gitignore",
        "work/demo/src/short-help.txt",
        "work/demo/src/long-help.txt",
        "work/demo/scripts/setup.sh",
        "work/demo/scripts/build.sh",
    ];
    expected.sort();
    let written: Vec<&String> = disk.files.keys().collect();
    assert_eq!(written, expected);
    assert_eq!(disk.files["work/demo/build.rs"], "# new_build.rs of demo (demo)\n");
    assert_eq!(disk.files["work/demo/Cargo.toml"], "# Cargo.toml of demo (demo)\n");
}

#[test]
fn scripts_are_made_executable() {
    let mut disk = Disk::with_templates("templates", Profile::Full);
    let run = CodeGenerator::generate_files(&demo(), "out");
    assert_eq!(drive(run, &mut disk), Ok(()));
    let marked: Vec<(&String, &u32)> = disk.modes.iter().collect();
    assert_eq!(marked.len(), 2);
    assert_eq!(disk.modes["out/scripts/setup.sh"], 0o755);
    assert_eq!(disk.modes["out/scripts/build.sh"], 0o755);
    assert_eq!(EXECUTABLE_MODE, 0o755);
}

#[test]
fn missing_templates_end_the_run() {
    let mut disk = Disk::new();
    let run = CodeGenerator::generate_files(&demo(), "out");
    assert_eq!(drive(run, &mut disk), Err(GenerationError::TemplatesNotFound));
    assert!(disk.files.is_empty());
    assert!(disk.modes.is_empty());
    assert_eq!(
        disk.probed,
        vec!["templates", "crates/backend/templates", "./templates"]
    );
    assert_eq!(
        disk.directories,
        vec!["out", "out/src", "out/scripts", "out/lib"]
    );
}

#[test]
fn first_candidate_that_is_there_is_used() {
    let mut disk = Disk::with_templates("crates/backend/templates", Profile::Full);
    disk.template_dirs.push("./templates".to_string());
    let run = CodeGenerator::generate_files(&demo(), "out");
    assert_eq!(drive(run, &mut disk), Ok(()));
    assert_eq!(disk.probed, vec!["templates", "crates/backend/templates"]);
    assert_eq!(disk.files.len(), 12);
}

#[test]
fn last_candidate_is_tried() {
    let mut disk = Disk::with_templates("./templates", Profile::Minimal);
    let run = Generation::begin(demo(), "out", Profile::Minimal);
    assert_eq!(drive(run, &mut disk), Ok(()));
    assert_eq!(
        disk.probed,
        vec!["templates", "crates/backend/templates", "./templates"]
    );
    assert_eq!(disk.files.len(), 3);
}

#[test]
fn generating_twice_gives_the_same_files() {
    let mut disk = Disk::with_templates("templates", Profile::Full);
    assert_eq!(drive(CodeGenerator::generate_files(&demo(), "out"), &mut disk), Ok(()));
    let first = disk.files.clone();
    let first_modes = disk.modes.clone();
    assert_eq!(drive(CodeGenerator::generate_files(&demo(), "out"), &mut disk), Ok(()));
    assert_eq!(disk.files, first);
    assert_eq!(disk.modes, first_modes);
    assert_eq!(disk.directories.len(), 4);
}

#[test]
fn generating_again_overwrites() {
    let mut disk = Disk::with_templates("templates", Profile::Minimal);
    disk.files.insert("out/build.rs".to_string(), "old text that is much longer".to_string());
    disk.files.insert("out/other.txt".to_string(), "kept".to_string());
    let run = Generation::begin(demo(), "out", Profile::Minimal);
    assert_eq!(drive(run, &mut disk), Ok(()));
    assert_eq!(disk.files["out/build.rs"], "# build.rs of demo (demo)\n");
    assert_eq!(disk.files["out/other.txt"], "kept");
}

#[test]
fn directory_failure_ends_the_run() {
    let mut disk = Disk::with_templates("templates", Profile::Full);
    disk.read_only = true;
    let run = CodeGenerator::generate_files(&demo(), "out");
    let error = drive(run, &mut disk).unwrap_err();
    assert_eq!(
        error,
        GenerationError::DirectoryCreationFailure {
            path: "out".to_string(),
            cause: "Read-only file system".to_string(),
        }
    );
    assert_eq!(error.message(), "Failed to create directory out: Read-only file system");
    assert!(disk.probed.is_empty());
    assert!(disk.files.is_empty());
}

#[test]
fn read_failure_names_the_path() {
    let mut disk = Disk::with_templates("templates", Profile::Full);
    disk.templates.remove("templates/lib.rs");
    let run = CodeGenerator::generate_files(&demo(), "out");
    let error = drive(run, &mut disk).unwrap_err();
    assert_eq!(
        error,
        GenerationError::ReadFailure {
            path: "templates/lib.rs".to_string(),
            cause: "No such file or directory".to_string(),
        }
    );
    assert_eq!(
        error.message(),
        "Failed to read templates/lib.rs: No such file or directory"
    );
    let written: Vec<&String> = disk.files.keys().collect();
    assert_eq!(written, vec!["out/src/cli.rs", "out/src/main.rs"]);
}

#[test]
fn write_failure_names_the_path() {
    let mut disk = Disk::with_templates("templates", Profile::Full);
    disk.locked.push("out/Cargo.toml".to_string());
    let run = CodeGenerator::generate_files(&demo(), "out");
    let error = drive(run, &mut disk).unwrap_err();
    assert_eq!(
        error,
        GenerationError::WriteFailure {
            path: "out/Cargo.toml".to_string(),
            cause: "Permission denied".to_string(),
        }
    );
    assert_eq!(error.message(), "Failed to write out/Cargo.toml: Permission denied");
    assert_eq!(disk.files.len(), 4);
    assert!(disk.files.contains_key("out/build.rs"));
    assert!(!disk.files.contains_key("out/COPYRIGHT"));
}

#[test]
fn permission_failure_is_a_write_failure() {
    let config = demo();
    let mut run = CodeGenerator::generate_files(&config, "out");
    let mut disk = Disk::with_templates("templates", Profile::Full);
    loop {
        match run.pending() {
            Action::MakeExecutable { path, mode } => {
                assert_eq!(path, "out/scripts/setup.sh");
                assert_eq!(mode, 0o755);
                run = run.advance(Event::Failed("Operation not permitted".to_string()));
                break;
            }
            action => {
                let event = disk.perform(action);
                run = run.advance(event);
            }
        }
    }
    assert_eq!(
        run.pending(),
        Action::Finish(Err(GenerationError::WriteFailure {
            path: "out/scripts/setup.sh".to_string(),
            cause: "Operation not permitted".to_string(),
        }))
    );
    assert!(!disk.files.contains_key("out/scripts/build.sh"));
}

#[test]
fn templates_not_found_message() {
    assert_eq!(
        GenerationError::TemplatesNotFound.message(),
        "Could not find templates directory"
    );
    assert_eq!(
        GenerationError::TemplatesNotFound.clone(),
        GenerationError::TemplatesNotFound
    );
}

#[test]
fn steps_of_a_run() {
    let mut run = Generation::begin(demo(), "o", Profile::Minimal);
    assert_eq!(run.pending(), Action::CreateDirectory { path: "o".to_string() });
    run = run.advance(Event::Completed);
    assert_eq!(run.pending(), Action::ProbeDirectory { path: "templates".to_string() });
    run = run.advance(Event::Found(false));
    assert_eq!(
        run.pending(),
        Action::ProbeDirectory { path: "crates/backend/templates".to_string() }
    );
    run = run.advance(Event::Found(true));
    assert_eq!(
        run.pending(),
        Action::ReadTemplate { path: "crates/backend/templates/build.rs".to_string() }
    );
    run = run.advance(Event::Content("{{ name }}!".to_string()));
    assert_eq!(
        run.pending(),
        Action::WriteFile { path: "o/build.rs".to_string(), content: "demo!".to_string() }
    );
    run = run.advance(Event::Completed);
    assert_eq!(
        run.pending(),
        Action::ReadTemplate { path: "crates/backend/templates/config.rs".to_string() }
    );
    run = run.advance(Event::Content(String::new()));
    assert_eq!(
        run.pending(),
        Action::WriteFile { path: "o/config.rs".to_string(), content: String::new() }
    );
    run = run.advance(Event::Completed);
    run = run.advance(Event::Content("x".to_string()));
    run = run.advance(Event::Completed);
    assert_eq!(run.pending(), Action::Finish(Ok(())));
}

#[test]
fn events_that_do_not_answer_are_ignored() {
    let mut run = Generation::begin(demo(), "o", Profile::Minimal);
    let first = Action::CreateDirectory { path: "o".to_string() };
    run = run.advance(Event::Found(true));
    assert_eq!(run.pending(), first);
    run = run.advance(Event::Content("text".to_string()));
    assert_eq!(run.pending(), first);
    run = run.advance(Event::Completed);
    let probe = Action::ProbeDirectory { path: "templates".to_string() };
    run = run.advance(Event::Completed);
    assert_eq!(run.pending(), probe);
    run = run.advance(Event::Failed("why".to_string()));
    assert_eq!(run.pending(), probe);
    run = run.advance(Event::Found(true));
    let read = Action::ReadTemplate { path: "templates/build.rs".to_string() };
    run = run.advance(Event::Completed);
    assert_eq!(run.pending(), read);
    run = run.advance(Event::Found(false));
    assert_eq!(run.pending(), read);
}

#[test]
fn nothing_happens_after_the_end() {
    let mut run = Generation::begin(demo(), "o", Profile::Minimal);
    run = run.advance(Event::Failed("full".to_string()));
    let end = Action::Finish(Err(GenerationError::DirectoryCreationFailure {
        path: "o".to_string(),
        cause: "full".to_string(),
    }));
    assert_eq!(run.pending(), end);
    for event in [
        Event::Completed,
        Event::Found(true),
        Event::Content("t".to_string()),
        Event::Failed("again".to_string()),
    ] {
        run = run.advance(event);
        assert_eq!(run.pending(), end);
    }
}

#[test]
fn manifest_of_the_full_profile() {
    let entries = manifest(Profile::Full);
    assert_eq!(entries.len(), 12);
    assert_eq!(manifest_len(Profile::Full), 12);
    assert_eq!(
        entries[0],
        ManifestEntry { template: "main.rs", target: "src/main.rs", executable: false }
    );
    assert_eq!(
        entries[3],
        ManifestEntry { template: "new_build.rs", target: "build.rs", executable: false }
    );
    assert_eq!(
        entries[10],
        ManifestEntry { template: "setup.sh", target: "scripts/setup.sh", executable: true }
    );
    assert_eq!(
        entries[11],
        ManifestEntry { template: "build.sh", target: "scripts/build.sh", executable: true }
    );
    let scripts: Vec<&str> =
        entries.iter().filter(|e| e.executable).map(|e| e.target).collect();
    assert_eq!(scripts, vec!["scripts/setup.sh", "scripts/build.sh"]);
}

#[test]
fn manifest_of_the_minimal_profile() {
    let entries = manifest(Profile::Minimal);
    assert_eq!(manifest_len(Profile::Minimal), 3);
    assert_eq!(
        entries,
        vec![
            ManifestEntry { template: "build.rs", target: "build.rs", executable: false },
            ManifestEntry { template: "config.rs", target: "config.rs", executable: false },
            ManifestEntry { template: "dispatch.rs", target: "dispatch.rs", executable: false },
        ]
    );
}

#[test]
fn directories_and_candidates() {
    assert_eq!(directories(Profile::Minimal, "out"), vec!["out"]);
    assert_eq!(
        directories(Profile::Full, "a/b"),
        vec!["a/b", "a/b/src", "a/b/scripts", "a/b/lib"]
    );
    assert_eq!(
        template_candidates(),
        vec!["templates", "crates/backend/templates", "./templates"]
    );
    assert_eq!(join("a", "b.txt"), "a/b.txt");
    assert_eq!(join("", ""), "/");
}
