//! One polling cycle as a state machine. The caller does the outside work
//! (listing, reading, downloading, writing, applying) and reports each
//! outcome as an event; the machine decides what comes next.

use crate::error::CycleError;
use crate::file_id::is_storable_id;
use crate::image::{check_response, file_name_of, response_spec, wallpaper_file_name, Extension};
use crate::select::{ids_of, select_file, select_spec, RunPhase};
use crate::store::{get_seen_ids, is_marked, loaded_ids, set_file_seen};
use vstd::prelude::*;

verus! {

/// The period between two ticks, in seconds: one hour.
pub const POLL_PERIOD_SECS: u64 = 3600;

/// Where the agent stands. `Idle` waits for the next tick; every other
/// phase is part of a running cycle and waits for one piece of outside work.
#[derive(Debug)]
pub enum Phase {
    Idle,
    /// The folder is being listed.
    Listing,
    /// The set of shown files is being read, to select among `candidates`.
    Selecting { candidates: Vec<String> },
    /// The selected file is being requested.
    Downloading { file_id: String },
    /// The image is being written to the wallpaper file.
    Writing { file_id: String, extension: Extension },
    /// The desktop is being told to show the wallpaper file.
    Applying { file_id: String },
    /// The set of shown files is being read, to add `file_id`.
    Marking { file_id: String },
    /// The new set of shown files is being written.
    Persisting { file_id: String },
}

/// The agent's whole state.
#[derive(Debug)]
pub struct Agent {
    pub phase: Phase,
    pub run: RunPhase,
}

/// What the caller reports.
#[derive(Debug)]
pub enum Event {
    /// The period has elapsed.
    Tick,
    /// The folder holds these files.
    Listed { file_ids: Vec<String> },
    /// Storage holds this text, or no state yet.
    SeenRead { contents: Option<String> },
    /// The provider answered the download.
    Responded { success: bool, content_type: Option<String> },
    /// The image is on disk.
    Written,
    /// The desktop shows the image.
    Applied,
    /// The set of shown files is on disk.
    Persisted,
    /// The outside work of the current phase failed.
    Failed,
    /// There is no configuration directory to read from or write to.
    ConfigDirMissing,
}

/// What the caller is to do next.
#[derive(Debug)]
pub enum Action {
    /// The cycle is complete: wait for the next tick.
    AwaitTick,
    /// The cycle is over without a new wallpaper: log `error`, then wait
    /// for the next tick.
    Report { error: CycleError },
    ListFolder,
    ReadSeen,
    Download { file_id: String },
    /// Write the response body to the file of this name.
    WriteImage { file_name: String },
    /// Make the file of this name the wallpaper.
    ApplyWallpaper { file_name: String },
    /// Replace the persisted set by this text.
    PersistSeen { contents: String },
    /// The event does not belong to the current phase: nothing to do.
    Ignore,
}

/// The text that an event carries, if any.
pub open spec fn owned_text_of(contents: Option<String>) -> Option<Seq<char>> {
    match contents {
        Some(text) => Some(text@),
        None => None,
    }
}

/// The error that a failure of the outside work means in each phase. No
/// outside work belongs to `Idle`: a failure reported there is ignored.
pub open spec fn failure_of(phase: Phase) -> CycleError {
    match phase {
        Phase::Idle => CycleError::ListError,
        Phase::Listing => CycleError::ListError,
        Phase::Selecting { .. } => CycleError::StorageError,
        Phase::Downloading { .. } => CycleError::DownloadError,
        Phase::Writing { .. } => CycleError::LocalWriteError,
        Phase::Applying { .. } => CycleError::WallpaperSetError,
        Phase::Marking { .. } => CycleError::StorageError,
        Phase::Persisting { .. } => CycleError::StorageError,
    }
}

/// The cycle ends with `error`: back to idle, and the run is as it was.
pub open spec fn ends_with(before: Agent, after: Agent, action: Action, error: CycleError) -> bool {
    &&& after.phase is Idle
    &&& after.run == before.run
    &&& action matches Action::Report { error: reported }
    &&& reported == error
}

/// The cycle goes on to download the file `id`.
pub open spec fn downloads(before: Agent, after: Agent, action: Action, id: Seq<char>) -> bool {
    &&& after.run == before.run
    &&& after.phase matches Phase::Downloading { file_id }
    &&& file_id@ == id
    &&& action matches Action::Download { file_id: requested }
    &&& requested@ == id
}

/// The event is not for this phase: the state stays and nothing is to do.
pub open spec fn ignores(before: Agent, after: Agent, action: Action) -> bool {
    after == before && action is Ignore
}

/// The transition relation of the machine: what `after` and `action` may
/// follow `before` on `event`.
pub open spec fn step_spec(before: Agent, event: Event, after: Agent, action: Action) -> bool {
    match (before.phase, event) {
        (Phase::Idle, Event::Tick) => {
            after.phase is Listing && after.run == before.run && action is ListFolder
        },
        (Phase::Idle, _) => ignores(before, after, action),
        (_, Event::Failed) => ends_with(before, after, action, failure_of(before.phase)),
        (_, Event::ConfigDirMissing) => ends_with(
            before,
            after,
            action,
            CycleError::ConfigDirError,
        ),
        (Phase::Listing, Event::Listed { file_ids }) => {
            &&& after.run == before.run
            &&& after.phase == (Phase::Selecting { candidates: file_ids })
            &&& action is ReadSeen
        },
        (Phase::Selecting { candidates }, Event::SeenRead { contents }) => {
            let ids = ids_of(candidates@);
            match select_spec(ids, loaded_ids(owned_text_of(contents))) {
                Ok(id) => downloads(before, after, action, id),
                Err(error) => if error == CycleError::NoNewFiles && before.run
                    == RunPhase::FirstRun {
                    exists|i: int|
                        0 <= i < ids.len() && downloads(before, after, action, #[trigger] ids[i])
                } else {
                    ends_with(before, after, action, error)
                },
            }
        },
        (Phase::Downloading { file_id }, Event::Responded { success, content_type }) => {
            match response_spec(success, owned_text_of(content_type)) {
                Ok(extension) => {
                    &&& after.run == before.run
                    &&& after.phase == (Phase::Writing { file_id, extension })
                    &&& action matches Action::WriteImage { file_name }
                    &&& file_name@ == file_name_of(extension)
                },
                Err(error) => ends_with(before, after, action, error),
            }
        },
        (Phase::Writing { file_id, extension }, Event::Written) => {
            &&& after.run == before.run
            &&& after.phase == (Phase::Applying { file_id })
            &&& action matches Action::ApplyWallpaper { file_name }
            &&& file_name@ == file_name_of(extension)
        },
        (Phase::Applying { file_id }, Event::Applied) => {
            &&& after.run == before.run
            &&& after.phase == (Phase::Marking { file_id })
            &&& action is ReadSeen
        },
        (Phase::Marking { file_id }, Event::SeenRead { contents }) => {
            if is_storable_id(file_id@) {
                &&& after.run == before.run
                &&& after.phase == (Phase::Persisting { file_id })
                &&& action matches Action::PersistSeen { contents: text }
                &&& is_marked(owned_text_of(contents), file_id@, text@)
            } else {
                ends_with(before, after, action, CycleError::StorageError)
            }
        },
        (Phase::Persisting { .. }, Event::Persisted) => {
            after.phase is Idle && after.run == RunPhase::SteadyState && action is AwaitTick
        },
        _ => ignores(before, after, action),
    }
}

/// The persisted set is rewritten only for a file whose wallpaper has been
/// applied: a write is decided only while marking, and marking is entered
/// only from a successful apply.
pub proof fn lemma_persist_follows_apply(before: Agent, event: Event, after: Agent, action: Action)
    requires
        step_spec(before, event, after, action),
    ensures
        action is PersistSeen ==> before.phase is Marking && event is SeenRead,
        after.phase is Marking ==> before.phase is Marking || (before.phase is Applying && event
            is Applied),
        after.phase is Marking && before.phase is Marking ==> action is Ignore,
{
}

/// A failure of any step ends the cycle: the agent is idle again, nothing is
/// to be persisted, and in a running cycle the error of that step is
/// reported.
pub proof fn lemma_failure_returns_to_idle(
    before: Agent,
    event: Event,
    after: Agent,
    action: Action,
)
    requires
        step_spec(before, event, after, action),
        event is Failed || event is ConfigDirMissing,
    ensures
        after.phase is Idle,
        after.run == before.run,
        !(action is PersistSeen),
        before.phase is Idle ==> action is Ignore,
        !(before.phase is Idle) && event is Failed ==> (action matches Action::Report { error }
            && error == failure_of(before.phase)),
        !(before.phase is Idle) && event is ConfigDirMissing ==> (action matches Action::Report {
            error,
        } && error == CycleError::ConfigDirError),
{
}

/// A tick starts a cycle only from idle: while a cycle runs, a tick changes
/// nothing.
pub proof fn lemma_tick_starts_one_cycle(before: Agent, after: Agent, action: Action)
    requires
        step_spec(before, Event::Tick, after, action),
    ensures
        before.phase is Idle ==> after.phase is Listing && action is ListFolder,
        !(before.phase is Idle) ==> after == before && action is Ignore,
{
}

/// The first run ends only when a cycle has gone through to the end.
pub proof fn lemma_run_changes_on_success(before: Agent, event: Event, after: Agent, action: Action)
    requires
        step_spec(before, event, after, action),
        after.run != before.run,
    ensures
        before.phase is Persisting,
        event is Persisted,
        after.run == RunPhase::SteadyState,
        after.phase is Idle,
{
}

impl Phase {
    /// The error that a failure of the outside work means in this phase.
    pub fn failure(&self) -> (error: CycleError)
        ensures
            error == failure_of(*self),
    {
        match self {
            Phase::Idle => CycleError::ListError,
            Phase::Listing => CycleError::ListError,
            Phase::Selecting { .. } => CycleError::StorageError,
            Phase::Downloading { .. } => CycleError::DownloadError,
            Phase::Writing { .. } => CycleError::LocalWriteError,
            Phase::Applying { .. } => CycleError::WallpaperSetError,
            Phase::Marking { .. } => CycleError::StorageError,
            Phase::Persisting { .. } => CycleError::StorageError,
        }
    }
}

impl Agent {
    /// The agent at start: idle, and nothing shown yet.
    pub fn new() -> (agent: Agent)
        ensures
            agent.phase is Idle,
            agent.run == RunPhase::FirstRun,
    {
        Agent { phase: Phase::Idle, run: RunPhase::FirstRun }
    }

    /// Takes one event and decides what comes next.
    pub fn step(self, event: Event) -> (r: (Agent, Action))
        ensures
            step_spec(self, event, r.0, r.1),
    {
        let run = self.run;
        match (self.phase, event) {
            (Phase::Idle, Event::Tick) => (Agent { phase: Phase::Listing, run }, Action::ListFolder),
            (Phase::Idle, _) => (Agent { phase: Phase::Idle, run }, Action::Ignore),
            (phase, Event::Failed) => {
                let error = phase.failure();
                (Agent { phase: Phase::Idle, run }, Action::Report { error })
            },
            (_, Event::ConfigDirMissing) => (
                Agent { phase: Phase::Idle, run },
                Action::Report { error: CycleError::ConfigDirError },
            ),
            (Phase::Listing, Event::Listed { file_ids }) => (
                Agent { phase: Phase::Selecting { candidates: file_ids }, run },
                Action::ReadSeen,
            ),
            (Phase::Selecting { candidates }, Event::SeenRead { contents }) => {
                let seen = match &contents {
                    Some(text) => get_seen_ids(Some(text.as_str())),
                    None => get_seen_ids(None),
                };
                match select_file(candidates.as_slice(), &seen, run) {
                    Ok(chosen) => {
                        let file_id = chosen.clone();
                        let requested = chosen.clone();
                        (
                            Agent { phase: Phase::Downloading { file_id }, run },
                            Action::Download { file_id: requested },
                        )
                    },
                    Err(error) => (Agent { phase: Phase::Idle, run }, Action::Report { error }),
                }
            },
            (Phase::Downloading { file_id }, Event::Responded { success, content_type }) => {
                let judged = match &content_type {
                    Some(text) => check_response(success, Some(text.as_str())),
                    None => check_response(success, None),
                };
                match judged {
                    Ok(extension) => (
                        Agent { phase: Phase::Writing { file_id, extension }, run },
                        Action::WriteImage { file_name: wallpaper_file_name(extension) },
                    ),
                    Err(error) => (Agent { phase: Phase::Idle, run }, Action::Report { error }),
                }
            },
            (Phase::Writing { file_id, extension }, Event::Written) => (
                Agent { phase: Phase::Applying { file_id }, run },
                Action::ApplyWallpaper { file_name: wallpaper_file_name(extension) },
            ),
            (Phase::Applying { file_id }, Event::Applied) => (
                Agent { phase: Phase::Marking { file_id }, run },
                Action::ReadSeen,
            ),
            (Phase::Marking { file_id }, Event::SeenRead { contents }) => {
                let marked = match &contents {
                    Some(text) => set_file_seen(Some(text.as_str()), file_id.as_str()),
                    None => set_file_seen(None, file_id.as_str()),
                };
                match marked {
                    Ok(text) => (
                        Agent { phase: Phase::Persisting { file_id }, run },
                        Action::PersistSeen { contents: text },
                    ),
                    Err(error) => (Agent { phase: Phase::Idle, run }, Action::Report { error }),
                }
            },
            (Phase::Persisting { .. }, Event::Persisted) => (
                Agent { phase: Phase::Idle, run: RunPhase::SteadyState },
                Action::AwaitTick,
            ),
            (phase, _) => (Agent { phase, run }, Action::Ignore),
        }
    }
}

} // verus!
