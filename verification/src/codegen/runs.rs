//! What holds of whole runs: of every sequence of events that a caller may
//! report, whatever the file system did.

use vstd::prelude::*;
use crate::codegen::errors::GenerationErrorView;
use crate::codegen::manifest::{candidates, directories_of, manifest_of, Profile, EXECUTABLE_MODE};
use crate::codegen::plan::{ActionView, EventView, GenerationView, StageView};
use crate::codegen::laws::{braces_paired, lemma_no_placeholder_left, values_open_nothing};
use crate::codegen::substitute::{occurs_at, substitute};
use crate::codegen::tokens::Token;
use crate::models::config::CliConfigView;

verus! {

impl GenerationView {
    /// The run after a sequence of events, the first of them first.
    pub open spec fn after(self, events: Seq<EventView>) -> GenerationView
        decreases events.len(),
    {
        if events.len() == 0 {
            self
        } else {
            self.after(events.drop_last()).step(events.last())
        }
    }

    /// The action that was pending when the event at `index` came.
    pub open spec fn asked(self, events: Seq<EventView>, index: int) -> ActionView {
        self.after(events.take(index)).pending()
    }
}

/// Whether an action reads, writes or changes a file.
pub open spec fn touches_files(action: ActionView) -> bool {
    action is ReadTemplate || action is WriteFile || action is MakeExecutable
}

/// A step keeps what is generated and where, and leaves the indices of the
/// stage in their ranges.
pub proof fn lemma_step_keeps(run: GenerationView, event: EventView)
    requires
        run.well_formed(),
    ensures
        run.step(event).well_formed(),
        run.step(event).config == run.config,
        run.step(event).output_dir == run.output_dir,
        run.step(event).profile == run.profile,
{
    lemma_counts(run.profile, run.output_dir);
}

/// How many directories, candidates and entries each profile has.
pub proof fn lemma_counts(profile: Profile, output_dir: Seq<char>)
    ensures
        directories_of(profile, output_dir).len() == match profile {
            Profile::Minimal => 1nat,
            Profile::Full => 4nat,
        },
        candidates().len() == 3,
        manifest_of(profile).len() == match profile {
            Profile::Minimal => 3nat,
            Profile::Full => 12nat,
        },
{
}

/// A run keeps what is generated and where, and leaves the indices of the
/// stage in their ranges.
pub proof fn lemma_after_keeps(run: GenerationView, events: Seq<EventView>)
    requires
        run.well_formed(),
    ensures
        run.after(events).well_formed(),
        run.after(events).config == run.config,
        run.after(events).output_dir == run.output_dir,
        run.after(events).profile == run.profile,
    decreases events.len(),
{
    if events.len() > 0 {
        lemma_after_keeps(run, events.drop_last());
        lemma_step_keeps(run.after(events.drop_last()), events.last());
    }
}

/// One more event is one more step.
pub proof fn lemma_after_push(run: GenerationView, events: Seq<EventView>, event: EventView)
    ensures
        run.after(events.push(event)) == run.after(events).step(event),
{
    assert(events.push(event).drop_last() =~= events);
}

/// Once a run has ended, no event changes it.
pub proof fn lemma_end_is_final(run: GenerationView, events: Seq<EventView>)
    requires
        run.stage is Finished,
    ensures
        run.after(events) == run,
    decreases events.len(),
{
    if events.len() > 0 {
        lemma_end_is_final(run, events.drop_last());
    }
}

/// Without templates no file is touched: as long as no candidate was
/// reported to be there, the run asks for directories to be made and for
/// candidates only, and it cannot end in success.
pub proof fn lemma_no_templates_no_files(
    config: CliConfigView,
    output_dir: Seq<char>,
    profile: Profile,
    events: Seq<EventView>,
)
    requires
        forall|k: int| 0 <= k < events.len() ==> events[k] != EventView::Found(true),
    ensures
        !touches_files(GenerationView::start(config, output_dir, profile).after(events).pending()),
        GenerationView::start(config, output_dir, profile).after(events).pending()
            != ActionView::Finish(Ok(())),
    decreases events.len(),
{
    let start = GenerationView::start(config, output_dir, profile);
    lemma_early_stage(start, events);
}

/// Whether a run has not yet found its templates.
pub open spec fn before_templates(stage: StageView) -> bool {
    match stage {
        StageView::Directories(_) => true,
        StageView::Probing(_) => true,
        StageView::Finished(Err(GenerationErrorView::DirectoryCreationFailure { .. })) => true,
        StageView::Finished(Err(GenerationErrorView::TemplatesNotFound)) => true,
        _ => false,
    }
}

/// A run that has not found its templates stays so as long as no
/// candidate is reported to be there.
proof fn lemma_early_stage(run: GenerationView, events: Seq<EventView>)
    requires
        before_templates(run.stage),
        forall|k: int| 0 <= k < events.len() ==> events[k] != EventView::Found(true),
    ensures
        before_templates(run.after(events).stage),
    decreases events.len(),
{
    if events.len() > 0 {
        lemma_early_stage(run, events.drop_last());
        assert(events.last() == events[events.len() - 1]);
    }
}

/// The events of a run in which every directory is made and every
/// candidate is reported missing.
pub open spec fn all_candidates_missing(profile: Profile, output_dir: Seq<char>) -> Seq<
    EventView,
> {
    Seq::new(directories_of(profile, output_dir).len(), |i: int| EventView::Completed) + Seq::new(
        candidates().len(),
        |i: int| EventView::Found(false),
    )
}

/// Where the templates lie in none of the places, the run ends with
/// [`GenerationErrorView::TemplatesNotFound`] as soon as the last place
/// was asked for.
pub proof fn lemma_templates_not_found(
    config: CliConfigView,
    output_dir: Seq<char>,
    profile: Profile,
)
    ensures
        GenerationView::start(config, output_dir, profile).after(
            all_candidates_missing(profile, output_dir),
        ).pending() == ActionView::Finish(Err(GenerationErrorView::TemplatesNotFound)),
{
    let start = GenerationView::start(config, output_dir, profile);
    let made = Seq::new(
        directories_of(profile, output_dir).len(),
        |i: int| EventView::Completed,
    );
    lemma_counts(profile, output_dir);
    lemma_directories_made(start, made.len() as int);
    assert(Seq::new(made.len(), |i: int| EventView::Completed) =~= made);
    let none = EventView::Found(false);
    let e0 = made;
    let e1 = e0.push(none);
    let e2 = e1.push(none);
    let e3 = e2.push(none);
    lemma_after_push(start, e0, none);
    lemma_after_push(start, e1, none);
    lemma_after_push(start, e2, none);
    assert(e3 =~= all_candidates_missing(profile, output_dir));
}

/// After `count` directories were made, the next is being made, or the
/// first candidate is asked for.
proof fn lemma_directories_made(start: GenerationView, count: int)
    requires
        start.stage == StageView::Directories(0),
        0 <= count <= start.directories().len(),
    ensures
        start.after(Seq::new(count as nat, |i: int| EventView::Completed)).stage == if count
            < start.directories().len() {
            StageView::Directories(count)
        } else {
            StageView::Probing(0)
        },
        start.after(Seq::new(count as nat, |i: int| EventView::Completed)) == start.at(
            start.after(Seq::new(count as nat, |i: int| EventView::Completed)).stage,
        ),
    decreases count,
{
    lemma_counts(start.profile, start.output_dir);
    let events = Seq::new(count as nat, |i: int| EventView::Completed);
    if count > 0 {
        lemma_directories_made(start, count - 1);
        let earlier = Seq::new((count - 1) as nat, |i: int| EventView::Completed);
        assert(events.drop_last() =~= earlier);
        assert(events.last() == EventView::Completed);
    } else {
        assert(start.at(start.stage) == start);
    }
}

/// The same input gives the same file: two runs for the same project that
/// read the same text for the same entry are about to write the same
/// content to the same path, wherever each of them found its templates.
pub proof fn lemma_same_input_same_file(
    first: GenerationView,
    second: GenerationView,
    entry: int,
    text: Seq<char>,
)
    requires
        first.config == second.config,
        first.output_dir == second.output_dir,
        first.profile == second.profile,
        first.stage is Reading,
        second.stage is Reading,
        first.stage->Reading_entry == entry,
        second.stage->Reading_entry == entry,
    ensures
        first.step(EventView::Content(text)).pending() == second.step(
            EventView::Content(text),
        ).pending(),
        first.step(EventView::Content(text)).pending() == (ActionView::WriteFile {
            path: first.target_path(entry),
            content: substitute(text, first.config),
        }),
{
}

impl GenerationView {
    /// Whether the event at `index` reported that the candidate `base` is
    /// there.
    pub open spec fn found_at(self, events: Seq<EventView>, base: int, index: int) -> bool {
        &&& 0 <= index < events.len()
        &&& self.asked(events, index) == (ActionView::ProbeDirectory { path: candidates()[base] })
        &&& events[index] == EventView::Found(true)
    }

    /// Whether the event at `index` brought the text of the template of the
    /// entry, read below the candidate `base`.
    pub open spec fn read_at(self, events: Seq<EventView>, base: int, entry: int, index: int) -> bool {
        &&& 0 <= index < events.len()
        &&& self.asked(events, index) == (ActionView::ReadTemplate {
            path: self.template_path(base, entry),
        })
        &&& events[index] is Content
    }

    /// Whether the event at `index` reported that the file of the entry
    /// was written.
    pub open spec fn written_at(self, events: Seq<EventView>, entry: int, index: int) -> bool {
        &&& 0 <= index < events.len()
        &&& self.asked(events, index) is WriteFile
        &&& self.asked(events, index)->WriteFile_path == self.target_path(entry)
        &&& events[index] == EventView::Completed
    }

    /// Whether the event at `index` reported that the file of the entry
    /// was made executable.
    pub open spec fn marked_at(self, events: Seq<EventView>, entry: int, index: int) -> bool {
        &&& 0 <= index < events.len()
        &&& self.asked(events, index) == (ActionView::MakeExecutable {
            path: self.target_path(entry),
            mode: EXECUTABLE_MODE,
        })
        &&& events[index] == EventView::Completed
    }

    /// Whether the event at `index` reported that the directory at
    /// `directory` was made.
    pub open spec fn made_at(self, events: Seq<EventView>, directory: int, index: int) -> bool {
        &&& 0 <= index < events.len()
        &&& self.asked(events, index) == (ActionView::CreateDirectory {
            path: self.directories()[directory],
        })
        &&& events[index] == EventView::Completed
    }

    /// Whether the directory at `directory` was reported to be made.
    pub open spec fn made(self, events: Seq<EventView>, directory: int) -> bool {
        exists|index: int| self.made_at(events, directory, index)
    }

    /// Whether every directory before `count` was reported to be made.
    pub open spec fn made_before(self, events: Seq<EventView>, count: int) -> bool {
        forall|directory: int| 0 <= directory < count ==> #[trigger] self.made(events, directory)
    }

    /// Whether the event at `index` reported that the candidate
    /// `candidate` is missing.
    pub open spec fn missing_at(
        self,
        events: Seq<EventView>,
        candidate: int,
        index: int,
    ) -> bool {
        &&& 0 <= index < events.len()
        &&& self.asked(events, index) == (ActionView::ProbeDirectory {
            path: candidates()[candidate],
        })
        &&& events[index] == EventView::Found(false)
    }

    /// Whether the candidate `base` was reported to be there.
    pub open spec fn found(self, events: Seq<EventView>, base: int) -> bool {
        exists|index: int| self.found_at(events, base, index)
    }

    /// Whether the candidate `candidate` was reported missing.
    pub open spec fn missing(self, events: Seq<EventView>, candidate: int) -> bool {
        exists|index: int| self.missing_at(events, candidate, index)
    }

    /// Whether every candidate before `count` was reported missing.
    pub open spec fn missing_before(self, events: Seq<EventView>, count: int) -> bool {
        forall|candidate: int| 0 <= candidate < count ==> #[trigger] self.missing(events, candidate)
    }

    /// Whether the file of the entry was generated: its template was read
    /// below the candidate `base`, and what was then written to its path
    /// is what the text that was read becomes under the configuration.
    pub open spec fn generated(self, events: Seq<EventView>, base: int, entry: int) -> bool {
        exists|r: int, w: int|
            {
                &&& #[trigger] self.read_at(events, base, entry, r)
                &&& #[trigger] self.written_at(events, entry, w)
                &&& r < w
                &&& self.asked(events, w)->WriteFile_content == substitute(
                    events[r]->Content_0,
                    self.config,
                )
            }
    }

    /// Whether the file of the entry was made executable.
    pub open spec fn marked(self, events: Seq<EventView>, entry: int) -> bool {
        exists|index: int| self.marked_at(events, entry, index)
    }

    /// Whether the entry is done with: its file was generated, and made
    /// executable if the manifest says so.
    pub open spec fn done(self, events: Seq<EventView>, base: int, entry: int) -> bool {
        &&& self.generated(events, base, entry)
        &&& manifest_of(self.profile)[entry].executable ==> self.marked(events, entry)
    }

    /// Whether all directories were made, the candidate `base` is the
    /// first that was found, and the first `count` entries are done with.
    pub open spec fn done_before(self, events: Seq<EventView>, base: int, count: int) -> bool {
        &&& 0 <= base < candidates().len()
        &&& self.made_before(events, self.directories().len() as int)
        &&& self.missing_before(events, base)
        &&& self.found(events, base)
        &&& forall|entry: int| 0 <= entry < count ==> #[trigger] self.done(events, base, entry)
    }

    /// What a run has done when it stands at its stage.
    pub open spec fn on_course(self, events: Seq<EventView>) -> bool {
        match self.after(events).stage {
            StageView::Directories(index) => self.made_before(events, index),
            StageView::Probing(index) => {
                &&& self.made_before(events, self.directories().len() as int)
                &&& self.missing_before(events, index)
            },
            StageView::Reading { base, entry } => self.done_before(events, base, entry),
            StageView::Writing { base, entry, content } => {
                &&& self.done_before(events, base, entry)
                &&& exists|r: int|
                    #[trigger] self.read_at(events, base, entry, r) && content == substitute(
                        events[r]->Content_0,
                        self.config,
                    )
            },
            StageView::Marking { base, entry } => {
                &&& self.done_before(events, base, entry)
                &&& self.generated(events, base, entry)
            },
            StageView::Finished(Ok(())) => exists|base: int| #[trigger]
                self.done_before(events, base, manifest_of(self.profile).len() as int),
            _ => true,
        }
    }
}

/// What was asked before an event does not depend on what came later.
proof fn lemma_asked_push(
    start: GenerationView,
    events: Seq<EventView>,
    event: EventView,
    index: int,
)
    requires
        0 <= index <= events.len(),
    ensures
        start.asked(events.push(event), index) == if index < events.len() {
            start.asked(events, index)
        } else {
            start.after(events).pending()
        },
{
    assert(events.push(event).take(index) =~= events.take(index));
    assert(events.take(events.len() as int) =~= events);
}

/// What was found stays found when another event comes.
proof fn lemma_found_push(
    start: GenerationView,
    events: Seq<EventView>,
    event: EventView,
    base: int,
)
    requires
        start.found(events, base),
    ensures
        start.found(events.push(event), base),
{
    let index = choose|index: int| start.found_at(events, base, index);
    lemma_asked_push(start, events, event, index);
    assert(start.found_at(events.push(event), base, index));
}

/// What was read stays read when another event comes.
proof fn lemma_read_push(
    start: GenerationView,
    events: Seq<EventView>,
    event: EventView,
    base: int,
    entry: int,
    r: int,
)
    requires
        start.read_at(events, base, entry, r),
    ensures
        start.read_at(events.push(event), base, entry, r),
        events.push(event)[r] == events[r],
{
    lemma_asked_push(start, events, event, r);
}

/// What was generated stays generated when another event comes.
proof fn lemma_generated_push(
    start: GenerationView,
    events: Seq<EventView>,
    event: EventView,
    base: int,
    entry: int,
)
    requires
        start.generated(events, base, entry),
    ensures
        start.generated(events.push(event), base, entry),
{
    let (r, w) = choose|r: int, w: int|
        {
            &&& #[trigger] start.read_at(events, base, entry, r)
            &&& #[trigger] start.written_at(events, entry, w)
            &&& r < w
            &&& start.asked(events, w)->WriteFile_content == substitute(
                events[r]->Content_0,
                start.config,
            )
        };
    lemma_read_push(start, events, event, base, entry, r);
    lemma_asked_push(start, events, event, w);
    let longer = events.push(event);
    assert(start.written_at(longer, entry, w));
    assert(start.asked(longer, w)->WriteFile_content == substitute(
        longer[r]->Content_0,
        start.config,
    ));
}

/// An entry that is done with stays so when another event comes.
proof fn lemma_done_push(
    start: GenerationView,
    events: Seq<EventView>,
    event: EventView,
    base: int,
    entry: int,
)
    requires
        start.done(events, base, entry),
    ensures
        start.done(events.push(event), base, entry),
{
    lemma_generated_push(start, events, event, base, entry);
    if manifest_of(start.profile)[entry].executable {
        let index = choose|index: int| start.marked_at(events, entry, index);
        lemma_asked_push(start, events, event, index);
        assert(start.marked_at(events.push(event), entry, index));
    }
}

/// The directories that were made stay so when another event comes.
proof fn lemma_made_before_push(
    start: GenerationView,
    events: Seq<EventView>,
    event: EventView,
    count: int,
)
    requires
        start.made_before(events, count),
    ensures
        start.made_before(events.push(event), count),
{
    assert forall|directory: int| 0 <= directory < count implies #[trigger] start.made(
        events.push(event),
        directory,
    ) by {
        assert(start.made(events, directory));
        let index = choose|index: int| start.made_at(events, directory, index);
        lemma_asked_push(start, events, event, index);
        assert(start.made_at(events.push(event), directory, index));
    }
}

/// The candidates that were missing stay so when another event comes.
proof fn lemma_missing_before_push(
    start: GenerationView,
    events: Seq<EventView>,
    event: EventView,
    count: int,
)
    requires
        start.missing_before(events, count),
    ensures
        start.missing_before(events.push(event), count),
{
    assert forall|candidate: int| 0 <= candidate < count implies #[trigger] start.missing(
        events.push(event),
        candidate,
    ) by {
        assert(start.missing(events, candidate));
        let index = choose|index: int| start.missing_at(events, candidate, index);
        lemma_asked_push(start, events, event, index);
        assert(start.missing_at(events.push(event), candidate, index));
    }
}

/// The entries that are done with stay so when another event comes.
proof fn lemma_done_before_push(
    start: GenerationView,
    events: Seq<EventView>,
    event: EventView,
    base: int,
    count: int,
)
    requires
        start.done_before(events, base, count),
    ensures
        start.done_before(events.push(event), base, count),
{
    lemma_found_push(start, events, event, base);
    lemma_made_before_push(start, events, event, start.directories().len() as int);
    lemma_missing_before_push(start, events, event, base);
    assert forall|entry: int| 0 <= entry < count implies #[trigger] start.done(
        events.push(event),
        base,
        entry,
    ) by {
        lemma_done_push(start, events, event, base, entry);
    }
}

/// The entry that was being written is generated once the write is
/// reported.
proof fn lemma_write_reported(
    start: GenerationView,
    events: Seq<EventView>,
    base: int,
    entry: int,
    content: Seq<char>,
)
    requires
        start.after(events).pending() == (ActionView::WriteFile {
            path: start.target_path(entry),
            content,
        }),
        exists|r: int|
            #[trigger] start.read_at(events, base, entry, r) && content == substitute(
                events[r]->Content_0,
                start.config,
            ),
    ensures
        start.generated(events.push(EventView::Completed), base, entry),
{
    let event = EventView::Completed;
    let longer = events.push(event);
    let r = choose|r: int|
        #[trigger] start.read_at(events, base, entry, r) && content == substitute(
            events[r]->Content_0,
            start.config,
        );
    let w = events.len() as int;
    lemma_read_push(start, events, event, base, entry, r);
    lemma_asked_push(start, events, event, w);
    assert(start.written_at(longer, entry, w));
    assert(start.asked(longer, w)->WriteFile_content == substitute(
        longer[r]->Content_0,
        start.config,
    ));
}

/// With its last entry done the run stands behind it on course.
proof fn lemma_behind_on_course(
    start: GenerationView,
    events: Seq<EventView>,
    base: int,
    entry: int,
)
    requires
        start.profile == start.after(events).profile,
        start.after(events).stage == start.after(events).behind(base, entry),
        0 <= entry < manifest_of(start.profile).len(),
        start.done_before(events, base, entry),
        start.done(events, base, entry),
    ensures
        start.on_course(events),
{
    assert(start.done_before(events, base, entry + 1));
}

/// A run stays on course with every event.
proof fn lemma_stays_on_course(start: GenerationView, events: Seq<EventView>, event: EventView)
    requires
        start.well_formed(),
        start.on_course(events),
    ensures
        start.on_course(events.push(event)),
{
    let longer = events.push(event);
    let now = start.after(events);
    let next = start.after(longer);
    let last = events.len() as int;
    lemma_after_push(start, events, event);
    lemma_after_keeps(start, events);
    lemma_step_keeps(now, event);
    lemma_asked_push(start, events, event, last);
    assert(start.template_path(0, 0) == now.template_path(0, 0));
    match (now.stage, event) {
        (StageView::Directories(index), EventView::Completed) => {
            lemma_made_before_push(start, events, event, index);
            assert(now.directories() == start.directories());
            assert(start.made_at(longer, index, last));
            assert(start.made(longer, index));
            assert(start.missing_before(longer, 0));
        },
        (StageView::Probing(index), EventView::Found(true)) => {
            lemma_made_before_push(start, events, event, start.directories().len() as int);
            lemma_missing_before_push(start, events, event, index);
            assert(start.found_at(longer, index, last));
        },
        (StageView::Probing(index), EventView::Found(false)) => {
            lemma_made_before_push(start, events, event, start.directories().len() as int);
            lemma_missing_before_push(start, events, event, index);
            assert(start.missing_at(longer, index, last));
            assert(start.missing(longer, index));
        },
        (StageView::Reading { base, entry }, EventView::Content(text)) => {
            lemma_done_before_push(start, events, event, base, entry);
            assert(now.template_path(base, entry) == start.template_path(base, entry));
            assert(start.read_at(longer, base, entry, last));
        },
        (StageView::Writing { base, entry, content }, EventView::Completed) => {
            lemma_done_before_push(start, events, event, base, entry);
            assert(now.target_path(entry) == start.target_path(entry));
            lemma_write_reported(start, events, base, entry, content);
            if !manifest_of(start.profile)[entry].executable {
                lemma_behind_on_course(start, longer, base, entry);
            }
        },
        (StageView::Marking { base, entry }, EventView::Completed) => {
            lemma_done_before_push(start, events, event, base, entry);
            lemma_generated_push(start, events, event, base, entry);
            assert(now.target_path(entry) == start.target_path(entry));
            assert(start.marked_at(longer, entry, last));
            lemma_behind_on_course(start, longer, base, entry);
        },
        (StageView::Directories(_), EventView::Failed(_)) => {},
        (StageView::Reading { .. }, EventView::Failed(_)) => {},
        (StageView::Writing { .. }, EventView::Failed(_)) => {},
        (StageView::Marking { .. }, EventView::Failed(_)) => {},
        _ => {
            assert(next == now);
            match now.stage {
                StageView::Directories(index) => {
                    lemma_made_before_push(start, events, event, index);
                },
                StageView::Probing(index) => {
                    lemma_made_before_push(
                        start,
                        events,
                        event,
                        start.directories().len() as int,
                    );
                    lemma_missing_before_push(start, events, event, index);
                },
                StageView::Reading { base, entry } => {
                    lemma_done_before_push(start, events, event, base, entry);
                },
                StageView::Writing { base, entry, content } => {
                    lemma_done_before_push(start, events, event, base, entry);
                    let r = choose|r: int|
                        #[trigger] start.read_at(events, base, entry, r) && content
                            == substitute(events[r]->Content_0, start.config);
                    lemma_read_push(start, events, event, base, entry, r);
                },
                StageView::Marking { base, entry } => {
                    lemma_done_before_push(start, events, event, base, entry);
                    lemma_generated_push(start, events, event, base, entry);
                },
                StageView::Finished(Ok(())) => {
                    let count = manifest_of(start.profile).len() as int;
                    let base = choose|base: int| #[trigger] start.done_before(events, base, count);
                    lemma_done_before_push(start, events, event, base, count);
                },
                _ => {},
            }
        },
    }
}

/// A run is on course from its beginning.
proof fn lemma_on_course(start: GenerationView, events: Seq<EventView>)
    requires
        start.stage == StageView::Directories(0),
    ensures
        start.on_course(events),
    decreases events.len(),
{
    lemma_counts(start.profile, start.output_dir);
    if events.len() > 0 {
        lemma_on_course(start, events.drop_last());
        lemma_stays_on_course(start, events.drop_last(), events.last());
        assert(events.drop_last().push(events.last()) =~= events);
    }
}

/// Success means that everything was done. If a run has ended in success,
/// then every directory was made, one of the candidates was reported to be
/// there and all before it were reported missing, and for every entry of
/// the manifest the template was read below that candidate, what the text
/// became under the configuration was written to the path of the entry
/// below the output directory, and the file was made executable where the
/// manifest says so; each of these was reported as completed.
pub proof fn lemma_success_is_complete(
    config: CliConfigView,
    output_dir: Seq<char>,
    profile: Profile,
    events: Seq<EventView>,
)
    requires
        GenerationView::start(config, output_dir, profile).after(events).pending()
            == ActionView::Finish(Ok(())),
    ensures
        exists|base: int|
            {
                &&& 0 <= base < candidates().len()
                &&& #[trigger] GenerationView::start(config, output_dir, profile).found(
                    events,
                    base,
                )
                &&& GenerationView::start(config, output_dir, profile).missing_before(
                    events,
                    base,
                )
                &&& GenerationView::start(config, output_dir, profile).made_before(
                    events,
                    directories_of(profile, output_dir).len() as int,
                )
                &&& forall|entry: int|
                    0 <= entry < manifest_of(profile).len() ==> #[trigger] GenerationView::start(
                        config,
                        output_dir,
                        profile,
                    ).done(events, base, entry)
            },
{
    let start = GenerationView::start(config, output_dir, profile);
    lemma_on_course(start, events);
    let count = manifest_of(profile).len() as int;
    let base = choose|base: int| #[trigger] start.done_before(events, base, count);
    assert(start.found(events, base));
}

/// No placeholder reaches a generated file: if no value of the
/// configuration holds an opening brace, and the template that was read
/// uses double braces for placeholders alone, then the text that the run
/// asks to be written holds the placeholder of no token.
pub proof fn lemma_written_text_is_complete(
    run: GenerationView,
    text: Seq<char>,
    token: Token,
    at: int,
)
    requires
        run.stage is Reading,
        values_open_nothing(run.config),
        braces_paired(text),
    ensures
        run.step(EventView::Content(text)).pending() is WriteFile,
        !occurs_at(
            run.step(EventView::Content(text)).pending()->WriteFile_content,
            token.placeholder(),
            at,
        ),
{
    lemma_no_placeholder_left(text, run.config, token, at);
}

/// Whether an event answers the action that a stage waits for.
pub open spec fn answers(stage: StageView, event: EventView) -> bool {
    match stage {
        StageView::Directories(_) => event is Completed || event is Failed,
        StageView::Probing(_) => event is Found,
        StageView::Reading { .. } => event is Content || event is Failed,
        StageView::Writing { .. } => event is Completed || event is Failed,
        StageView::Marking { .. } => event is Completed || event is Failed,
        StageView::Finished(_) => false,
    }
}

impl GenerationView {
    /// A bound on the number of answers that the run still needs.
    pub open spec fn steps_left(self) -> int {
        let entries = manifest_of(self.profile).len() as int;
        match self.stage {
            StageView::Directories(index) => (self.directories().len() - index) + candidates().len()
                + 3 * entries,
            StageView::Probing(index) => (candidates().len() - index) + 3 * entries,
            StageView::Reading { base, entry } => 3 * (entries - entry),
            StageView::Writing { base, entry, content } => 3 * (entries - entry) - 1,
            StageView::Marking { base, entry } => 3 * (entries - entry) - 2,
            StageView::Finished(_) => 0,
        }
    }
}

/// Every run ends: each event that answers the pending action brings the
/// run nearer to its end, and an event that does not answer it changes
/// nothing.
pub proof fn lemma_every_answer_counts(run: GenerationView, event: EventView)
    requires
        run.well_formed(),
    ensures
        run.steps_left() >= 0,
        run.steps_left() == 0 <==> run.stage is Finished,
        answers(run.stage, event) ==> run.step(event).steps_left() < run.steps_left(),
        !answers(run.stage, event) ==> run.step(event) == run,
{
    lemma_counts(run.profile, run.output_dir);
}

/// The first failure ends the run: when the making of a directory, the
/// reading of a template, the writing of a file or the setting of its
/// permissions is reported to have failed, the run ends with an error
/// that holds the path that was worked on and the cause as it was
/// reported, and nothing more is asked for.
pub proof fn lemma_first_failure_ends_the_run(run: GenerationView, cause: Seq<char>)
    requires
        run.well_formed(),
    ensures
        run.step(EventView::Failed(cause)).pending() == match run.pending() {
            ActionView::CreateDirectory { path } => ActionView::Finish(
                Err(GenerationErrorView::DirectoryCreationFailure { path, cause }),
            ),
            ActionView::ReadTemplate { path } => ActionView::Finish(
                Err(GenerationErrorView::ReadFailure { path, cause }),
            ),
            ActionView::WriteFile { path, content } => ActionView::Finish(
                Err(GenerationErrorView::WriteFailure { path, cause }),
            ),
            ActionView::MakeExecutable { path, mode } => ActionView::Finish(
                Err(GenerationErrorView::WriteFailure { path, cause }),
            ),
            ActionView::ProbeDirectory { path } => run.pending(),
            ActionView::Finish(result) => run.pending(),
        },
{
}

/// Only the scripts are made executable: whenever a run asks for the
/// permissions of a file to be set, the file is that of an entry which the
/// manifest marks as executable, and the bits are those of
/// [`EXECUTABLE_MODE`].
pub proof fn lemma_only_scripts_are_marked(
    config: CliConfigView,
    output_dir: Seq<char>,
    profile: Profile,
    events: Seq<EventView>,
)
    requires
        GenerationView::start(config, output_dir, profile).after(events).pending()
            is MakeExecutable,
    ensures
        exists|entry: int|
            {
                &&& 0 <= entry < manifest_of(profile).len()
                &&& (#[trigger] manifest_of(profile)[entry]).executable
                &&& GenerationView::start(config, output_dir, profile).after(events).pending() == (
                ActionView::MakeExecutable {
                    path: GenerationView::start(config, output_dir, profile).target_path(entry),
                    mode: EXECUTABLE_MODE,
                })
            },
{
    let start = GenerationView::start(config, output_dir, profile);
    lemma_counts(profile, output_dir);
    lemma_after_keeps(start, events);
    let now = start.after(events);
    let entry = now.stage->Marking_entry;
    assert(now.target_path(entry) == start.target_path(entry));
    assert(manifest_of(profile)[entry].executable);
}

} // verus!
