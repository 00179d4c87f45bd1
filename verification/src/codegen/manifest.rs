//! What a generation run produces and where it looks for its templates:
//! the two profiles, the files of each, the directories that hold them,
//! and the places where the templates may lie.

use vstd::prelude::*;

verus! {

/// The two sets of files that can be generated.
#[derive(Clone, Copy, Debug, PartialEq, Eq, Structural)]
pub enum Profile {
    /// Three source files, side by side in the output directory.
    Minimal,
    /// A whole project: sources, build script, package manifest, license
    /// notice, ignore rules, help texts and two shell scripts.
    Full,
}

/// One file of a profile: the template it is rendered from, its path below
/// the output directory, and whether its owner must be able to execute it.
#[derive(Clone, Copy, Debug, PartialEq, Eq)]
pub struct ManifestEntry {
    pub template: &'static str,
    pub target: &'static str,
    pub executable: bool,
}

/// What a [`ManifestEntry`] is to a contract.
pub struct ManifestEntryView {
    pub template: Seq<char>,
    pub target: Seq<char>,
    pub executable: bool,
}

impl View for ManifestEntry {
    type V = ManifestEntryView;

    open spec fn view(&self) -> ManifestEntryView {
        ManifestEntryView {
            template: self.template@,
            target: self.target@,
            executable: self.executable,
        }
    }
}

/// An entry whose file is like any other.
pub open spec fn plain_file(template: Seq<char>, target: Seq<char>) -> ManifestEntryView {
    ManifestEntryView { template, target, executable: false }
}

/// An entry whose file its owner must be able to execute.
pub open spec fn script(template: Seq<char>, target: Seq<char>) -> ManifestEntryView {
    ManifestEntryView { template, target, executable: true }
}

/// The files of a profile, in the order in which they are generated.
pub open spec fn manifest_of(profile: Profile) -> Seq<ManifestEntryView> {
    match profile {
        Profile::Minimal => seq![
            plain_file("build.rs"@, "build.rs"@),
            plain_file("config.rs"@, "config.rs"@),
            plain_file("dispatch.rs"@, "dispatch.rs"@),
        ],
        Profile::Full => seq![
            plain_file("main.rs"@, "src/main.rs"@),
            plain_file("cli.rs"@, "src/cli.rs"@),
            plain_file("lib.rs"@, "src/lib.rs"@),
            plain_file("new_build.rs"@, "build.rs"@),
            plain_file("Cargo.toml"@, "Cargo.toml"@),
            plain_file("COPYRIGHT"@, "COPYRIGHT"@),
            plain_file(".gitmodules"@, ".gitmodules"@),
            plain_file(".gitignore"@, ".gitignore"@),
            plain_file("short-help.txt"@, "src/short-help.txt"@),
            plain_file("long-help.txt"@, "src/long-help.txt"@),
            script("setup.sh"@, "scripts/setup.sh"@),
            script("build.sh"@, "scripts/build.sh"@),
        ],
    }
}

/// The permission bits of a generated script: read, write and execute for
/// its owner, read and execute for everyone else.
pub const EXECUTABLE_MODE: u32 = 0o755;

/// `base` and `relative` joined into one path.
pub open spec fn joined(base: Seq<char>, relative: Seq<char>) -> Seq<char> {
    base + "/"@ + relative
}

/// The directories that a profile needs, in the order in which they are
/// made: the output directory itself, then those below it.
pub open spec fn directories_of(profile: Profile, output: Seq<char>) -> Seq<Seq<char>> {
    match profile {
        Profile::Minimal => seq![output],
        Profile::Full => seq![
            output,
            joined(output, "src"@),
            joined(output, "scripts"@),
            joined(output, "lib"@),
        ],
    }
}

/// The places where the templates may lie, relative to the working
/// directory, in the order in which they are tried.
pub open spec fn candidates() -> Seq<Seq<char>> {
    seq!["templates"@, "crates/backend/templates"@, "./templates"@]
}

/// An entry whose file is like any other.
fn plain(template: &'static str, target: &'static str) -> (entry: ManifestEntry)
    ensures
        entry@ == plain_file(template@, target@),
{
    ManifestEntry { template, target, executable: false }
}

/// An entry whose file its owner must be able to execute.
fn executable(template: &'static str, target: &'static str) -> (entry: ManifestEntry)
    ensures
        entry@ == script(template@, target@),
{
    ManifestEntry { template, target, executable: true }
}

/// The number of files of a profile.
pub fn manifest_len(profile: Profile) -> (count: usize)
    ensures
        count == manifest_of(profile).len(),
{
    match profile {
        Profile::Minimal => 3,
        Profile::Full => 12,
    }
}

/// The file of a profile at `index`, counted from zero.
pub(crate) fn manifest_entry(profile: Profile, index: usize) -> (entry: ManifestEntry)
    requires
        index < manifest_of(profile).len(),
    ensures
        entry@ == manifest_of(profile)[index as int],
{
    match profile {
        Profile::Minimal => {
            if index == 0 {
                plain("build.rs", "build.rs")
            } else if index == 1 {
                plain("config.rs", "config.rs")
            } else {
                plain("dispatch.rs", "dispatch.rs")
            }
        },
        Profile::Full => {
            if index == 0 {
                plain("main.rs", "src/main.rs")
            } else if index == 1 {
                plain("cli.rs", "src/cli.rs")
            } else if index == 2 {
                plain("lib.rs", "src/lib.rs")
            } else if index == 3 {
                plain("new_build.rs", "build.rs")
            } else if index == 4 {
                plain("Cargo.toml", "Cargo.toml")
            } else if index == 5 {
                plain("COPYRIGHT", "COPYRIGHT")
            } else if index == 6 {
                plain(".gitmodules", ".gitmodules")
            } else if index == 7 {
                plain(".gitignore", ".gitignore")
            } else if index == 8 {
                plain("short-help.txt", "src/short-help.txt")
            } else if index == 9 {
                plain("long-help.txt", "src/long-help.txt")
            } else if index == 10 {
                executable("setup.sh", "scripts/setup.sh")
            } else {
                executable("build.sh", "scripts/build.sh")
            }
        },
    }
}

/// The files of a profile, in the order in which they are generated.
pub fn manifest(profile: Profile) -> (entries: Vec<ManifestEntry>)
    ensures
        entries@.len() == manifest_of(profile).len(),
        forall|i: int| 0 <= i < entries@.len() ==> (#[trigger] entries@[i])@ == manifest_of(profile)[i],
{
    let count = manifest_len(profile);
    let mut entries: Vec<ManifestEntry> = Vec::new();
    let mut i: usize = 0;
    while i < count
        invariant
            count == manifest_of(profile).len(),
            i <= count,
            entries@.len() == i,
            forall|k: int| 0 <= k < i ==> (#[trigger] entries@[k])@ == manifest_of(profile)[k],
        decreases count - i,
    {
        entries.push(manifest_entry(profile, i));
        i = i + 1;
    }
    entries
}

/// `base` and `relative` joined into one path.
pub fn join(base: &str, relative: &str) -> (path: String)
    ensures
        path@ == joined(base@, relative@),
{
    let mut path = base.to_owned();
    path.append("/");
    path.append(relative);
    path
}

/// The number of directories that a profile needs.
pub fn directory_count(profile: Profile) -> (count: usize)
    ensures
        forall|output: Seq<char>| count == #[trigger] directories_of(profile, output).len(),
{
    match profile {
        Profile::Minimal => {
            assert forall|output: Seq<char>| 1 == #[trigger] directories_of(
                profile,
                output,
            ).len() by {}
            1
        },
        Profile::Full => {
            assert forall|output: Seq<char>| 4 == #[trigger] directories_of(
                profile,
                output,
            ).len() by {}
            4
        },
    }
}

/// The directory that a profile needs at `index`, counted from zero.
pub(crate) fn directory(profile: Profile, output: &str, index: usize) -> (path: String)
    requires
        index < directories_of(profile, output@).len(),
    ensures
        path@ == directories_of(profile, output@)[index as int],
{
    if index == 0 {
        output.to_owned()
    } else if index == 1 {
        join(output, "src")
    } else if index == 2 {
        join(output, "scripts")
    } else {
        join(output, "lib")
    }
}

/// The number of places where the templates are looked for.
pub fn candidate_count() -> (count: usize)
    ensures
        count == candidates().len(),
{
    3
}

/// The place where the templates are looked for at `index`, counted from
/// zero.
pub(crate) fn candidate(index: usize) -> (path: &'static str)
    requires
        index < candidates().len(),
    ensures
        path@ == candidates()[index as int],
{
    if index == 0 {
        "templates"
    } else if index == 1 {
        "crates/backend/templates"
    } else {
        "./templates"
    }
}

/// The directories that a profile needs below and including `output`, in
/// the order in which they are made.
pub fn directories(profile: Profile, output: &str) -> (paths: Vec<String>)
    ensures
        paths@.len() == directories_of(profile, output@).len(),
        forall|i: int|
            0 <= i < paths@.len() ==> (#[trigger] paths@[i])@ == directories_of(
                profile,
                output@,
            )[i],
{
    let count = directory_count(profile);
    let mut paths: Vec<String> = Vec::new();
    let mut i: usize = 0;
    while i < count
        invariant
            count == directories_of(profile, output@).len(),
            i <= count,
            paths@.len() == i,
            forall|k: int|
                0 <= k < i ==> (#[trigger] paths@[k])@ == directories_of(profile, output@)[k],
        decreases count - i,
    {
        paths.push(directory(profile, output, i));
        i = i + 1;
    }
    paths
}

/// The places where the templates are looked for, in the order in which
/// they are tried.
pub fn template_candidates() -> (paths: Vec<&'static str>)
    ensures
        paths@.len() == candidates().len(),
        forall|i: int| 0 <= i < paths@.len() ==> (#[trigger] paths@[i])@ == candidates()[i],
{
    let mut paths: Vec<&'static str> = Vec::new();
    paths.push(candidate(0));
    paths.push(candidate(1));
    paths.push(candidate(2));
    paths
}

/// The two shell scripts of the full profile are the files that must be
/// executable, and no other file of either profile is.
pub proof fn lemma_scripts_alone_are_executable(profile: Profile, index: int)
    requires
        0 <= index < manifest_of(profile).len(),
    ensures
        manifest_of(profile)[index].executable <==> (profile == Profile::Full && (
            manifest_of(profile)[index].target == "scripts/setup.sh"@ || manifest_of(
                profile,
            )[index].target == "scripts/build.sh"@)),
{
    reveal_strlit("scripts/setup.sh");
    reveal_strlit("scripts/build.sh");
    reveal_strlit("src/main.rs");
    reveal_strlit("src/cli.rs");
    reveal_strlit("src/lib.rs");
    reveal_strlit("build.rs");
    reveal_strlit("Cargo.toml");
    reveal_strlit("COPYRIGHT");
    reveal_strlit(".gitmodules");
    reveal_strlit(".gitignore");
    reveal_strlit("src/short-help.txt");
    reveal_strlit("src/long-help.txt");
    reveal_strlit("config.rs");
    reveal_strlit("dispatch.rs");
    let target = manifest_of(profile)[index].target;
    match profile {
        Profile::Minimal => {},
        Profile::Full => {
            if index < 10 {
                assert(target.len() != 16);
            }
        },
    }
}

} // verus!
