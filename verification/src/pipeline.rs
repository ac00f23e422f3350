//! The stages of a run and the order in which they follow one another.
//!
//! A run downloads, extracts and converts, in that order, and no stage
//! begins before the one before it has succeeded. The work of a stage is
//! the caller's; the run decides what follows from its outcome.

use crate::download::{downloads_dir, DownloadTarget};
use crate::error::{ErrorModel, PipelineError};
use crate::extract::{working_dir, working_dir_for};
use crate::progress::{
    download_events, lemma_download_events_bounds, lemma_download_events_monotonic, total_len,
    Arrival, DownloadProgress, ProgressEvent, Stage, STAGE_MARK,
};
use crate::url::{check_url, is_web_url};
use vstd::prelude::*;

verus! {

/// Where a run stands.
#[derive(Debug, Clone, PartialEq, Eq)]
pub enum RunState {
    Downloading,
    Extracting { archive: String, work_dir: String },
    Converting { archive: String, work_dir: String },
    Done { archive: String },
    Failed { stage: Stage, cause: PipelineError },
}

/// How the work of a stage ended.
#[derive(Debug, PartialEq, Eq)]
pub enum StageOutcome {
    /// The download ended: with the local path of the archive, or failed.
    Downloaded(Result<String, PipelineError>),
    /// The extraction ended.
    Extracted(Result<(), PipelineError>),
    /// Locating, converting and mirroring ended.
    Converted(Result<(), PipelineError>),
}

/// What the caller does next.
#[derive(Debug, PartialEq, Eq)]
pub enum RunAction {
    /// Fetch the archive.
    Download { target: DownloadTarget },
    /// Unpack the archive into the directory.
    Extract { archive: String, into: String },
    /// Locate the chart sources below the directory, convert them, and
    /// mirror their song directories.
    Convert { work_dir: String },
    /// Report the result of the run: the local path of the archive, or the
    /// message of the failure.
    Finish(Result<String, String>),
    /// The outcome is not that of the current stage: nothing changes.
    Nothing,
}

/// The model of a state.
pub enum StateModel {
    Downloading,
    Extracting { archive: Seq<char>, work_dir: Seq<char> },
    Converting { archive: Seq<char>, work_dir: Seq<char> },
    Done { archive: Seq<char> },
    Failed { stage: Stage, cause: ErrorModel },
}

/// The model of an outcome.
pub enum OutcomeModel {
    Downloaded(Result<Seq<char>, ErrorModel>),
    Extracted(Result<(), ErrorModel>),
    Converted(Result<(), ErrorModel>),
}

/// The model of an action.
pub enum ActionModel {
    Download { url: Seq<char>, destination_dir: Seq<char> },
    Extract { archive: Seq<char>, into: Seq<char> },
    Convert { work_dir: Seq<char> },
    Finish(Result<Seq<char>, Seq<char>>),
    Nothing,
}

impl View for RunState {
    type V = StateModel;

    open spec fn view(&self) -> StateModel {
        match *self {
            RunState::Downloading => StateModel::Downloading,
            RunState::Extracting { archive, work_dir } => StateModel::Extracting {
                archive: archive@,
                work_dir: work_dir@,
            },
            RunState::Converting { archive, work_dir } => StateModel::Converting {
                archive: archive@,
                work_dir: work_dir@,
            },
            RunState::Done { archive } => StateModel::Done { archive: archive@ },
            RunState::Failed { stage, cause } => StateModel::Failed { stage, cause: cause@ },
        }
    }
}

/// The model of the outcome of a step that gives no value.
pub open spec fn unit_model(r: Result<(), PipelineError>) -> Result<(), ErrorModel> {
    match r {
        Ok(_) => Ok(()),
        Err(e) => Err(e@),
    }
}

impl View for StageOutcome {
    type V = OutcomeModel;

    open spec fn view(&self) -> OutcomeModel {
        match *self {
            StageOutcome::Downloaded(r) => OutcomeModel::Downloaded(
                match r {
                    Ok(path) => Ok(path@),
                    Err(e) => Err(e@),
                },
            ),
            StageOutcome::Extracted(r) => OutcomeModel::Extracted(unit_model(r)),
            StageOutcome::Converted(r) => OutcomeModel::Converted(unit_model(r)),
        }
    }
}

impl View for RunAction {
    type V = ActionModel;

    open spec fn view(&self) -> ActionModel {
        match *self {
            RunAction::Download { target } => ActionModel::Download {
                url: target.url@,
                destination_dir: target.destination_dir@,
            },
            RunAction::Extract { archive, into } => ActionModel::Extract {
                archive: archive@,
                into: into@,
            },
            RunAction::Convert { work_dir } => ActionModel::Convert { work_dir: work_dir@ },
            RunAction::Finish(r) => ActionModel::Finish(
                match r {
                    Ok(path) => Ok(path@),
                    Err(message) => Err(message@),
                },
            ),
            RunAction::Nothing => ActionModel::Nothing,
        }
    }
}

/// The cause reported for an archive whose path names no file.
pub open spec fn unnamed_archive_text() -> Seq<char> {
    "the archive path names no file"@
}

/// The message of a failed run: the stage, then the cause.
pub open spec fn failure_text(stage: Stage, cause: ErrorModel) -> Seq<char> {
    stage.name() + " failed: "@ + cause.text()
}

/// The state that follows `state` on `outcome`. Only the outcome of the
/// current stage moves a run; a run that is done or has failed stays so.
pub open spec fn next_state(state: StateModel, outcome: OutcomeModel) -> StateModel {
    match (state, outcome) {
        (StateModel::Downloading, OutcomeModel::Downloaded(Ok(archive))) => match working_dir(
            archive,
        ) {
            Some(dir) => StateModel::Extracting { archive, work_dir: dir },
            None => StateModel::Failed {
                stage: Stage::Extracting,
                cause: ErrorModel::Archive(unnamed_archive_text()),
            },
        },
        (StateModel::Downloading, OutcomeModel::Downloaded(Err(e))) => StateModel::Failed {
            stage: Stage::Downloading,
            cause: e,
        },
        (StateModel::Extracting { archive, work_dir }, OutcomeModel::Extracted(Ok(_))) => {
            StateModel::Converting { archive, work_dir }
        },
        (StateModel::Extracting { .. }, OutcomeModel::Extracted(Err(e))) => StateModel::Failed {
            stage: Stage::Extracting,
            cause: e,
        },
        (StateModel::Converting { archive, .. }, OutcomeModel::Converted(Ok(_))) => {
            StateModel::Done { archive }
        },
        (StateModel::Converting { .. }, OutcomeModel::Converted(Err(e))) => StateModel::Failed {
            stage: Stage::Converting,
            cause: e,
        },
        _ => state,
    }
}

/// What the caller does when a run has moved from `before` to `after`.
pub open spec fn action_for(before: StateModel, after: StateModel) -> ActionModel {
    if before == after {
        ActionModel::Nothing
    } else {
        match after {
            StateModel::Downloading => ActionModel::Nothing,
            StateModel::Extracting { archive, work_dir } => ActionModel::Extract {
                archive,
                into: work_dir,
            },
            StateModel::Converting { work_dir, .. } => ActionModel::Convert { work_dir },
            StateModel::Done { archive } => ActionModel::Finish(Ok(archive)),
            StateModel::Failed { stage, cause } => ActionModel::Finish(
                Err(failure_text(stage, cause)),
            ),
        }
    }
}

/// The event emitted when a run has moved from `before` to `after`: the
/// mark of the stage that it entered, if it entered one.
pub open spec fn event_for(pack_id: u64, before: StateModel, after: StateModel) -> Option<
    ProgressEvent,
> {
    if before == after {
        None
    } else {
        match after {
            StateModel::Extracting { .. } => Some(
                ProgressEvent {
                    pack_id,
                    downloaded: STAGE_MARK,
                    total: STAGE_MARK,
                    stage: Stage::Extracting,
                },
            ),
            StateModel::Converting { .. } => Some(
                ProgressEvent {
                    pack_id,
                    downloaded: STAGE_MARK,
                    total: STAGE_MARK,
                    stage: Stage::Converting,
                },
            ),
            _ => None,
        }
    }
}

/// What a run asks of its caller at one point: an event to emit, if any,
/// and the work to do.
#[derive(Debug, PartialEq, Eq)]
pub struct Step {
    pub emit: Option<ProgressEvent>,
    pub action: RunAction,
}

/// One run of the pipeline for one pack.
#[derive(Debug, Clone, PartialEq, Eq)]
pub struct Run {
    pub pack_id: u64,
    pub state: RunState,
}

/// Writes the message of a failed run.
pub fn failure_message(stage: Stage, cause: &PipelineError) -> (r: String)
    ensures
        r@ == failure_text(stage, cause@),
{
    stage.as_str().to_owned().concat(" failed: ").concat(cause.message().as_str())
}

impl Run {
    /// Begins a run. A well-formed HTTP or HTTPS URL starts the download
    /// into the `downloads` directory of `work_dir` and opens the run with
    /// the event that counts nothing of an unknown total. Any other URL
    /// fails the run at once, and no request is sent.
    pub fn begin(pack_id: u64, url: String, work_dir: &str) -> (r: (Run, Step))
        ensures
            r.0.pack_id == pack_id,
            is_web_url(url@) ==> {
                &&& r.0.state@ == StateModel::Downloading
                &&& r.1.emit == Some(
                    ProgressEvent { pack_id, downloaded: 0, total: 0, stage: Stage::Downloading },
                )
                &&& r.1.action@ == ActionModel::Download {
                    url: url@,
                    destination_dir: downloads_dir(work_dir@),
                }
            },
            !is_web_url(url@) ==> {
                &&& r.0.state@ == StateModel::Failed {
                    stage: Stage::Downloading,
                    cause: ErrorModel::Url,
                }
                &&& r.1.emit is None
                &&& r.1.action@ == ActionModel::Finish(
                    Err(failure_text(Stage::Downloading, ErrorModel::Url)),
                )
            },
    {
        match check_url(url.as_str()) {
            Ok(_) => {
                let target = DownloadTarget::new(url, work_dir);
                (
                    Run { pack_id, state: RunState::Downloading },
                    Step {
                        emit: Some(ProgressEvent::started(pack_id)),
                        action: RunAction::Download { target },
                    },
                )
            },
            Err(e) => {
                let message = failure_message(Stage::Downloading, &e);
                (
                    Run {
                        pack_id,
                        state: RunState::Failed { stage: Stage::Downloading, cause: e },
                    },
                    Step { emit: None, action: RunAction::Finish(Err(message)) },
                )
            },
        }
    }

    /// Whether the run has ended, in success or in failure.
    pub fn is_over(&self) -> (r: bool)
        ensures
            r == (self.state@ is Done || self.state@ is Failed),
    {
        match &self.state {
            RunState::Done { .. } => true,
            RunState::Failed { .. } => true,
            _ => false,
        }
    }

    /// Moves the run on the outcome of a stage, and says what follows.
    pub fn advance(self, outcome: StageOutcome) -> (r: (Run, Step))
        ensures
            r.0.pack_id == self.pack_id,
            r.0.state@ == next_state(self.state@, outcome@),
            r.1.action@ == action_for(self.state@, r.0.state@),
            r.1.emit == event_for(self.pack_id, self.state@, r.0.state@),
    {
        let pack_id = self.pack_id;
        match (self.state, outcome) {
            (RunState::Downloading, StageOutcome::Downloaded(Ok(archive))) => {
                match working_dir_for(archive.as_str()) {
                    Some(dir) => {
                        let state = RunState::Extracting {
                            archive: archive.clone(),
                            work_dir: dir.clone(),
                        };
                        (
                            Run { pack_id, state },
                            Step {
                                emit: Some(ProgressEvent::stage_entered(pack_id, Stage::Extracting)),
                                action: RunAction::Extract { archive, into: dir },
                            },
                        )
                    },
                    None => fail(
                        pack_id,
                        Stage::Extracting,
                        PipelineError::ArchiveError("the archive path names no file".to_owned()),
                    ),
                }
            },
            (RunState::Downloading, StageOutcome::Downloaded(Err(e))) => fail(
                pack_id,
                Stage::Downloading,
                e,
            ),
            (RunState::Extracting { archive, work_dir }, StageOutcome::Extracted(Ok(_))) => {
                let state = RunState::Converting { archive, work_dir: work_dir.clone() };
                (
                    Run { pack_id, state },
                    Step {
                        emit: Some(ProgressEvent::stage_entered(pack_id, Stage::Converting)),
                        action: RunAction::Convert { work_dir },
                    },
                )
            },
            (RunState::Extracting { .. }, StageOutcome::Extracted(Err(e))) => fail(
                pack_id,
                Stage::Extracting,
                e,
            ),
            (RunState::Converting { archive, .. }, StageOutcome::Converted(Ok(_))) => {
                let state = RunState::Done { archive: archive.clone() };
                (
                    Run { pack_id, state },
                    Step { emit: None, action: RunAction::Finish(Ok(archive)) },
                )
            },
            (RunState::Converting { .. }, StageOutcome::Converted(Err(e))) => fail(
                pack_id,
                Stage::Converting,
                e,
            ),
            (state, _) => (
                Run { pack_id, state },
                Step { emit: None, action: RunAction::Nothing },
            ),
        }
    }
}

/// The failed run and its last step.
fn fail(pack_id: u64, stage: Stage, cause: PipelineError) -> (r: (Run, Step))
    ensures
        r.0.pack_id == pack_id,
        r.0.state@ == (StateModel::Failed { stage, cause: cause@ }),
        r.1.emit is None,
        r.1.action@ == ActionModel::Finish(Err(failure_text(stage, cause@))),
{
    let message = failure_message(stage, &cause);
    (
        Run { pack_id, state: RunState::Failed { stage, cause } },
        Step { emit: None, action: RunAction::Finish(Err(message)) },
    )
}

/// A run that is done or has failed stays as it is, whatever comes.
pub proof fn lemma_ended_runs_stay(state: StateModel, outcome: OutcomeModel)
    requires
        state is Done || state is Failed,
    ensures
        next_state(state, outcome) == state,
{
}

/// No stage is entered but from the stage before it, on that stage's
/// success: extracting after a download that gave a path, converting
/// after an extraction, and the end after a conversion, with the archive
/// that was downloaded.
pub proof fn lemma_stages_in_order(state: StateModel, outcome: OutcomeModel)
    requires
        next_state(state, outcome) != state,
    ensures
        next_state(state, outcome) matches StateModel::Extracting { archive, work_dir } ==> state
            is Downloading && outcome == OutcomeModel::Downloaded(Ok(archive)) && working_dir(
            archive,
        ) == Some(work_dir),
        next_state(state, outcome) matches StateModel::Converting { archive, work_dir } ==> state
            == (StateModel::Extracting { archive, work_dir }) && outcome
            matches OutcomeModel::Extracted(Ok(_)),
        next_state(state, outcome) matches StateModel::Done { archive } ==> state is Converting
            && state->Converting_archive == archive && outcome matches OutcomeModel::Converted(
            Ok(_),
        ),
        !(next_state(state, outcome) is Downloading),
{
}

/// A run whose three stages succeed ends with the local path of the
/// archive as its result.
pub proof fn lemma_successful_run(archive: Seq<char>)
    requires
        working_dir(archive) is Some,
    ensures
        ({
            let extracting = next_state(
                StateModel::Downloading,
                OutcomeModel::Downloaded(Ok(archive)),
            );
            let converting = next_state(extracting, OutcomeModel::Extracted(Ok(())));
            let done = next_state(converting, OutcomeModel::Converted(Ok(())));
            &&& done == (StateModel::Done { archive })
            &&& action_for(converting, done) == ActionModel::Finish(Ok(archive))
        }),
{
}

/// The events of a run whose stages all begin: the opening event, those of
/// the download that receives `arrivals`, then the marks of extracting and
/// of converting.
pub open spec fn run_events(
    pack_id: u64,
    announced: u64,
    start_ms: u64,
    arrivals: Seq<Arrival>,
) -> Seq<ProgressEvent> {
    let download = DownloadProgress { pack_id, announced, received: 0, last_emit_ms: start_ms };
    seq![ProgressEvent { pack_id, downloaded: 0, total: 0, stage: Stage::Downloading }]
        + download_events(download, arrivals) + seq![
        ProgressEvent {
            pack_id,
            downloaded: STAGE_MARK,
            total: STAGE_MARK,
            stage: Stage::Extracting,
        },
        ProgressEvent {
            pack_id,
            downloaded: STAGE_MARK,
            total: STAGE_MARK,
            stage: Stage::Converting,
        },
    ]
}

/// The events of the downloading stage of a run never count fewer bytes
/// than an earlier one.
pub proof fn lemma_downloading_events_monotonic(
    pack_id: u64,
    announced: u64,
    start_ms: u64,
    arrivals: Seq<Arrival>,
)
    requires
        total_len(arrivals) <= u64::MAX,
    ensures
        forall|i: int, j: int|
            0 <= i <= j < run_events(pack_id, announced, start_ms, arrivals).len() && (
            #[trigger] run_events(pack_id, announced, start_ms, arrivals)[j]).stage
                == Stage::Downloading ==> (#[trigger] run_events(
                pack_id,
                announced,
                start_ms,
                arrivals,
            )[i]).downloaded <= run_events(pack_id, announced, start_ms, arrivals)[j].downloaded,
{
    let download = DownloadProgress { pack_id, announced, received: 0, last_emit_ms: start_ms };
    let mid = download_events(download, arrivals);
    let all = run_events(pack_id, announced, start_ms, arrivals);
    lemma_download_events_monotonic(download, arrivals);
    lemma_download_events_bounds(download, arrivals);
    assert forall|i: int, j: int|
        0 <= i <= j < all.len() && (#[trigger] all[j]).stage == Stage::Downloading implies (
    #[trigger] all[i]).downloaded <= all[j].downloaded by {
        if j >= 1 + mid.len() {
            assert(all[j].stage != Stage::Downloading);
        } else if j >= 1 {
            assert(all[j] == mid[j - 1]);
            if i >= 1 {
                assert(all[i] == mid[i - 1]);
            }
        }
    }
}

/// The events of a whole run never count less than an earlier one, where
/// the download received no more than the value of the stage marks.
pub proof fn lemma_run_events_monotonic(
    pack_id: u64,
    announced: u64,
    start_ms: u64,
    arrivals: Seq<Arrival>,
)
    requires
        total_len(arrivals) <= STAGE_MARK,
    ensures
        forall|i: int, j: int|
            0 <= i <= j < run_events(pack_id, announced, start_ms, arrivals).len() ==> (
            #[trigger] run_events(pack_id, announced, start_ms, arrivals)[i]).downloaded <= (
            #[trigger] run_events(pack_id, announced, start_ms, arrivals)[j]).downloaded,
{
    let download = DownloadProgress { pack_id, announced, received: 0, last_emit_ms: start_ms };
    let mid = download_events(download, arrivals);
    let all = run_events(pack_id, announced, start_ms, arrivals);
    lemma_download_events_monotonic(download, arrivals);
    lemma_download_events_bounds(download, arrivals);
    assert forall|i: int, j: int| 0 <= i <= j < all.len() implies (#[trigger] all[i]).downloaded
        <= (#[trigger] all[j]).downloaded by {
        if 1 <= i < 1 + mid.len() {
            assert(all[i] == mid[i - 1]);
        }
        if 1 <= j < 1 + mid.len() {
            assert(all[j] == mid[j - 1]);
        }
    }
}

} // verus!
