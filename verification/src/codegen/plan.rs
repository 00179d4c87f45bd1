//! A generation run as a sequence of steps. The run itself touches no
//! file: it names the next thing to do to the file system as an
//! [`Action`], its caller does it and reports what came of it as an
//! [`Event`], and the run answers with the action after that, until it
//! ends in success or in the first failure.

use vstd::prelude::*;
use crate::codegen::errors::{GenerationError, GenerationErrorView};
use crate::codegen::manifest::{
    candidate, candidate_count, candidates, directories_of, directory, directory_count, join,
    joined, manifest_entry, manifest_len, manifest_of, Profile, EXECUTABLE_MODE,
};
use crate::codegen::substitute::{render, substitute};
use crate::models::config::{CliConfig, CliConfigView};

verus! {

/// What the caller of a run is asked to do next.
#[derive(Debug, PartialEq, Eq)]
pub enum Action {
    /// Make the directory and every missing directory above it; nothing is
    /// wrong if it is there already.
    CreateDirectory { path: String },
    /// Tell whether a directory is there.
    ProbeDirectory { path: String },
    /// Read the file as text.
    ReadTemplate { path: String },
    /// Write the text to the file, in place of what the file held.
    WriteFile { path: String, content: String },
    /// Set the permission bits of the file, where the platform has any.
    MakeExecutable { path: String, mode: u32 },
    /// Nothing: the run has ended, with this result.
    Finish(Result<(), GenerationError>),
}

/// What an [`Action`] is to a contract.
pub enum ActionView {
    CreateDirectory { path: Seq<char> },
    ProbeDirectory { path: Seq<char> },
    ReadTemplate { path: Seq<char> },
    WriteFile { path: Seq<char>, content: Seq<char> },
    MakeExecutable { path: Seq<char>, mode: u32 },
    Finish(Result<(), GenerationErrorView>),
}

impl View for Action {
    type V = ActionView;

    open spec fn view(&self) -> ActionView {
        match self {
            Action::CreateDirectory { path } => ActionView::CreateDirectory { path: path@ },
            Action::ProbeDirectory { path } => ActionView::ProbeDirectory { path: path@ },
            Action::ReadTemplate { path } => ActionView::ReadTemplate { path: path@ },
            Action::WriteFile { path, content } => ActionView::WriteFile {
                path: path@,
                content: content@,
            },
            Action::MakeExecutable { path, mode } => ActionView::MakeExecutable {
                path: path@,
                mode: *mode,
            },
            Action::Finish(Ok(())) => ActionView::Finish(Ok(())),
            Action::Finish(Err(error)) => ActionView::Finish(Err(error@)),
        }
    }
}

/// What came of an action.
#[derive(Debug, PartialEq, Eq)]
pub enum Event {
    /// The directory was made, the file was written, or the permissions
    /// were set.
    Completed,
    /// Whether the directory that was asked for is there.
    Found(bool),
    /// The text of the template that was read.
    Content(String),
    /// The action failed, for this cause.
    Failed(String),
}

/// What an [`Event`] is to a contract.
pub enum EventView {
    Completed,
    Found(bool),
    Content(Seq<char>),
    Failed(Seq<char>),
}

impl View for Event {
    type V = EventView;

    open spec fn view(&self) -> EventView {
        match self {
            Event::Completed => EventView::Completed,
            Event::Found(there) => EventView::Found(*there),
            Event::Content(text) => EventView::Content(text@),
            Event::Failed(cause) => EventView::Failed(cause@),
        }
    }
}

/// How far a run has come.
pub enum StageView {
    /// The directory at this index is being made.
    Directories(int),
    /// The candidate at this index is being asked for.
    Probing(int),
    /// The template of the entry is being read from the candidate `base`.
    Reading { base: int, entry: int },
    /// The file of the entry is being written with `content`.
    Writing { base: int, entry: int, content: Seq<char> },
    /// The file of the entry is being made executable.
    Marking { base: int, entry: int },
    /// The run has ended.
    Finished(Result<(), GenerationErrorView>),
}

/// What a [`Generation`] is to a contract: what is generated, where, and
/// how far the run has come.
pub struct GenerationView {
    pub config: CliConfigView,
    pub output_dir: Seq<char>,
    pub profile: Profile,
    pub stage: StageView,
}

impl GenerationView {
    /// The run at its beginning: the output directory is being made.
    pub open spec fn start(
        config: CliConfigView,
        output_dir: Seq<char>,
        profile: Profile,
    ) -> GenerationView {
        GenerationView { config, output_dir, profile, stage: StageView::Directories(0) }
    }

    /// The same run at another stage.
    pub open spec fn at(self, stage: StageView) -> GenerationView {
        GenerationView { stage, ..self }
    }

    /// The directories that the run makes.
    pub open spec fn directories(self) -> Seq<Seq<char>> {
        directories_of(self.profile, self.output_dir)
    }

    /// The path of the template of an entry below a candidate.
    pub open spec fn template_path(self, base: int, entry: int) -> Seq<char> {
        joined(candidates()[base], manifest_of(self.profile)[entry].template)
    }

    /// The path of the file of an entry below the output directory.
    pub open spec fn target_path(self, entry: int) -> Seq<char> {
        joined(self.output_dir, manifest_of(self.profile)[entry].target)
    }

    /// Whether the indices of the stage are those of a directory, a
    /// candidate and an entry, and only a file that the manifest marks as
    /// executable is being made so.
    pub open spec fn well_formed(self) -> bool {
        match self.stage {
            StageView::Directories(index) => 0 <= index < self.directories().len(),
            StageView::Probing(index) => 0 <= index < candidates().len(),
            StageView::Reading { base, entry } => {
                &&& 0 <= base < candidates().len()
                &&& 0 <= entry < manifest_of(self.profile).len()
            },
            StageView::Writing { base, entry, content } => {
                &&& 0 <= base < candidates().len()
                &&& 0 <= entry < manifest_of(self.profile).len()
            },
            StageView::Marking { base, entry } => {
                &&& 0 <= base < candidates().len()
                &&& 0 <= entry < manifest_of(self.profile).len()
                &&& manifest_of(self.profile)[entry].executable
            },
            StageView::Finished(_) => true,
        }
    }

    /// The action that the run waits for.
    pub open spec fn pending(self) -> ActionView {
        match self.stage {
            StageView::Directories(index) => ActionView::CreateDirectory {
                path: self.directories()[index],
            },
            StageView::Probing(index) => ActionView::ProbeDirectory { path: candidates()[index] },
            StageView::Reading { base, entry } => ActionView::ReadTemplate {
                path: self.template_path(base, entry),
            },
            StageView::Writing { base, entry, content } => ActionView::WriteFile {
                path: self.target_path(entry),
                content,
            },
            StageView::Marking { base, entry } => ActionView::MakeExecutable {
                path: self.target_path(entry),
                mode: EXECUTABLE_MODE,
            },
            StageView::Finished(result) => ActionView::Finish(result),
        }
    }

    /// The stage behind the entry `entry`: the next entry is read, or the
    /// run ends in success behind the last one.
    pub open spec fn behind(self, base: int, entry: int) -> StageView {
        if entry + 1 < manifest_of(self.profile).len() {
            StageView::Reading { base, entry: entry + 1 }
        } else {
            StageView::Finished(Ok(()))
        }
    }

    /// The run after an event.
    ///
    /// The directories are made one after the other, then the candidates
    /// are asked for in their order and the first that is there becomes the
    /// base; if none is there the run fails. Then each entry of the manifest
    /// is read from the base, rendered under the configuration, written,
    /// and made executable where the manifest says so. The first action
    /// that fails ends the run with its error; nothing is undone. An event
    /// that cannot answer the pending action, and any event after the end,
    /// changes nothing.
    pub open spec fn step(self, event: EventView) -> GenerationView {
        match (self.stage, event) {
            (StageView::Directories(index), EventView::Completed) => {
                if index + 1 < self.directories().len() {
                    self.at(StageView::Directories(index + 1))
                } else {
                    self.at(StageView::Probing(0))
                }
            },
            (StageView::Directories(index), EventView::Failed(cause)) => self.at(
                StageView::Finished(
                    Err(
                        GenerationErrorView::DirectoryCreationFailure {
                            path: self.directories()[index],
                            cause,
                        },
                    ),
                ),
            ),
            (StageView::Probing(index), EventView::Found(true)) => self.at(
                StageView::Reading { base: index, entry: 0 },
            ),
            (StageView::Probing(index), EventView::Found(false)) => {
                if index + 1 < candidates().len() {
                    self.at(StageView::Probing(index + 1))
                } else {
                    self.at(StageView::Finished(Err(GenerationErrorView::TemplatesNotFound)))
                }
            },
            (StageView::Reading { base, entry }, EventView::Content(text)) => self.at(
                StageView::Writing { base, entry, content: substitute(text, self.config) },
            ),
            (StageView::Reading { base, entry }, EventView::Failed(cause)) => self.at(
                StageView::Finished(
                    Err(
                        GenerationErrorView::ReadFailure {
                            path: self.template_path(base, entry),
                            cause,
                        },
                    ),
                ),
            ),
            (StageView::Writing { base, entry, content }, EventView::Completed) => {
                if manifest_of(self.profile)[entry].executable {
                    self.at(StageView::Marking { base, entry })
                } else {
                    self.at(self.behind(base, entry))
                }
            },
            (StageView::Writing { base, entry, content }, EventView::Failed(cause)) => self.at(
                StageView::Finished(
                    Err(GenerationErrorView::WriteFailure { path: self.target_path(entry), cause }),
                ),
            ),
            (StageView::Marking { base, entry }, EventView::Completed) => self.at(
                self.behind(base, entry),
            ),
            (StageView::Marking { base, entry }, EventView::Failed(cause)) => self.at(
                StageView::Finished(
                    Err(GenerationErrorView::WriteFailure { path: self.target_path(entry), cause }),
                ),
            ),
            _ => self,
        }
    }
}

enum Stage {
    Directories(usize),
    Probing(usize),
    Reading { base: usize, entry: usize },
    Writing { base: usize, entry: usize, content: String },
    Marking { base: usize, entry: usize },
    Finished(Result<(), GenerationError>),
}

impl View for Stage {
    type V = StageView;

    closed spec fn view(&self) -> StageView {
        match self {
            Stage::Directories(index) => StageView::Directories(*index as int),
            Stage::Probing(index) => StageView::Probing(*index as int),
            Stage::Reading { base, entry } => StageView::Reading {
                base: *base as int,
                entry: *entry as int,
            },
            Stage::Writing { base, entry, content } => StageView::Writing {
                base: *base as int,
                entry: *entry as int,
                content: content@,
            },
            Stage::Marking { base, entry } => StageView::Marking {
                base: *base as int,
                entry: *entry as int,
            },
            Stage::Finished(Ok(())) => StageView::Finished(Ok(())),
            Stage::Finished(Err(error)) => StageView::Finished(Err(error@)),
        }
    }
}

/// A generation run: what is generated, where, and how far the run has
/// come. A run is begun with [`Generation::begin`], and then asked for its
/// pending action and advanced by what came of it, in turn, until the
/// pending action is [`Action::Finish`].
pub struct Generation {
    config: CliConfig,
    output_dir: String,
    profile: Profile,
    stage: Stage,
}

impl View for Generation {
    type V = GenerationView;

    closed spec fn view(&self) -> GenerationView {
        GenerationView {
            config: self.config@,
            output_dir: self.output_dir@,
            profile: self.profile,
            stage: self.stage@,
        }
    }
}

impl Generation {
    #[verifier::type_invariant]
    spec fn indices_in_range(self) -> bool {
        self@.well_formed()
    }

    /// Begins a run that generates the files of `profile` from `config`
    /// below `output_dir`.
    pub fn begin(config: CliConfig, output_dir: &str, profile: Profile) -> (run: Generation)
        ensures
            run@ == GenerationView::start(config@, output_dir@, profile),
            run@.well_formed(),
    {
        let count = directory_count(profile);
        assert(directories_of(profile, output_dir@).len() == count);
        Generation {
            config,
            output_dir: output_dir.to_owned(),
            profile,
            stage: Stage::Directories(0),
        }
    }

    /// The action that the run waits for.
    pub fn pending(&self) -> (action: Action)
        ensures
            action@ == self@.pending(),
            self@.well_formed(),
    {
        proof {
            use_type_invariant(self);
        }
        match &self.stage {
            Stage::Directories(index) => Action::CreateDirectory {
                path: directory(self.profile, self.output_dir.as_str(), *index),
            },
            Stage::Probing(index) => Action::ProbeDirectory { path: candidate(*index).to_owned() },
            Stage::Reading { base, entry } => Action::ReadTemplate {
                path: join(candidate(*base), manifest_entry(self.profile, *entry).template),
            },
            Stage::Writing { base, entry, content } => Action::WriteFile {
                path: join(self.output_dir.as_str(), manifest_entry(self.profile, *entry).target),
                content: content.clone(),
            },
            Stage::Marking { base, entry } => Action::MakeExecutable {
                path: join(self.output_dir.as_str(), manifest_entry(self.profile, *entry).target),
                mode: EXECUTABLE_MODE,
            },
            Stage::Finished(Ok(())) => Action::Finish(Ok(())),
            Stage::Finished(Err(error)) => Action::Finish(Err(error.clone())),
        }
    }

    /// The stage behind the entry `entry`.
    fn behind(profile: Profile, base: usize, entry: usize) -> (stage: Stage)
        requires
            base < candidates().len(),
            entry < manifest_of(profile).len(),
        ensures
            forall|run: GenerationView|
                run.profile == profile ==> stage@ == #[trigger] run.behind(base as int, entry as int),
            match stage@ {
                StageView::Reading { base: b, entry: e } => b == base && 0 <= e < manifest_of(
                    profile,
                ).len(),
                StageView::Finished(result) => result is Ok,
                _ => false,
            },
    {
        if entry + 1 < manifest_len(profile) {
            Stage::Reading { base, entry: entry + 1 }
        } else {
            Stage::Finished(Ok(()))
        }
    }

    /// Advances the run by what came of its pending action, as
    /// [`GenerationView::step`] says.
    pub fn advance(self, event: Event) -> (next: Generation)
        ensures
            next@ == self@.step(event@),
            next@.well_formed(),
    {
        proof {
            use_type_invariant(&self);
        }
        let ghost before = self@;
        let Generation { config, output_dir, profile, stage } = self;
        let stage = match (stage, event) {
            (Stage::Directories(index), Event::Completed) => {
                if index + 1 < directory_count(profile) {
                    Stage::Directories(index + 1)
                } else {
                    Stage::Probing(0)
                }
            },
            (Stage::Directories(index), Event::Failed(cause)) => Stage::Finished(
                Err(
                    GenerationError::DirectoryCreationFailure {
                        path: directory(profile, output_dir.as_str(), index),
                        cause,
                    },
                ),
            ),
            (Stage::Probing(index), Event::Found(there)) => {
                if there {
                    let count = manifest_len(profile);
                    Stage::Reading { base: index, entry: 0 }
                } else if index + 1 < candidate_count() {
                    Stage::Probing(index + 1)
                } else {
                    Stage::Finished(Err(GenerationError::TemplatesNotFound))
                }
            },
            (Stage::Reading { base, entry }, Event::Content(text)) => Stage::Writing {
                base,
                entry,
                content: render(text.as_str(), &config),
            },
            (Stage::Reading { base, entry }, Event::Failed(cause)) => Stage::Finished(
                Err(
                    GenerationError::ReadFailure {
                        path: join(candidate(base), manifest_entry(profile, entry).template),
                        cause,
                    },
                ),
            ),
            (Stage::Writing { base, entry, content }, Event::Completed) => {
                if manifest_entry(profile, entry).executable {
                    Stage::Marking { base, entry }
                } else {
                    Self::behind(profile, base, entry)
                }
            },
            (Stage::Writing { base, entry, content }, Event::Failed(cause)) => Stage::Finished(
                Err(
                    GenerationError::WriteFailure {
                        path: join(output_dir.as_str(), manifest_entry(profile, entry).target),
                        cause,
                    },
                ),
            ),
            (Stage::Marking { base, entry }, Event::Completed) => Self::behind(
                profile,
                base,
                entry,
            ),
            (Stage::Marking { base, entry }, Event::Failed(cause)) => Stage::Finished(
                Err(
                    GenerationError::WriteFailure {
                        path: join(output_dir.as_str(), manifest_entry(profile, entry).target),
                        cause,
                    },
                ),
            ),
            (stage, _) => stage,
        };
        Generation { config, output_dir, profile, stage }
    }
}

} // verus!
