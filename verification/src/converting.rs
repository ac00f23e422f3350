//! The converting stage: locate the chart sources, convert them one file
//! at a time, then mirror their song directories.
//!
//! Listing the tree, reading a source, writing its artifacts and carrying
//! out the mirror steps are the caller's work. The stage decides what is
//! done next. A tree that cannot be listed ends the stage with the error;
//! a source that cannot be read or converted is reported and passed over.

use crate::convert::{artifacts_model, content_model, convert_source, converted, Artifact};
use crate::error::{ErrorModel, PipelineError};
use crate::locate::{chart_sources, locate, song_dirs};
use crate::mirror::{
    mirror_steps, plan_steps, steps_model, MirrorConfiguration, MirrorStep, StepModel,
};
use crate::text::texts;
use vstd::prelude::*;

verus! {

/// Where the converting stage stands.
#[derive(Debug, Clone, PartialEq, Eq)]
pub enum ConvertingState {
    /// The tree is being listed.
    Locating,
    /// The source at `next` is being read.
    Reading { sources: Vec<String>, next: usize, song_dirs: Vec<String> },
    /// The artifacts of the source at `next` are being written.
    Writing { sources: Vec<String>, next: usize, song_dirs: Vec<String> },
    /// The mirror steps are being carried out.
    Mirroring,
    /// The stage is over.
    Ended,
}

/// What the caller's work gave.
#[derive(Debug, PartialEq, Eq)]
pub enum ConvertingEvent {
    /// The files of the tree, or why it could not be listed.
    Located(Result<Vec<String>, PipelineError>),
    /// The bytes of the source, or why it could not be read.
    SourceRead(Result<Vec<u8>, String>),
    /// The artifacts were written, as far as they could be.
    Written,
    /// The mirror steps were carried out, or one failed.
    Mirrored(Result<(), PipelineError>),
}

/// What the caller does next.
#[derive(Debug, PartialEq, Eq)]
pub enum ConvertingAction {
    /// List the files of the tree below the working directory.
    Locate,
    /// Read the source.
    Read { source: String },
    /// Write each artifact; one that fails does not stop the others.
    Write { artifacts: Vec<Artifact> },
    /// Carry the steps out in order, and stop at the first that fails.
    Mirror { steps: Vec<MirrorStep> },
    /// The stage is over, with this result.
    End(Result<(), PipelineError>),
    /// The event is not that of the current work: nothing changes.
    Nothing,
}

/// A source that was passed over, and why.
#[derive(Debug, Clone, PartialEq, Eq)]
pub struct FileFailure {
    pub source: String,
    pub error: PipelineError,
}

/// What follows an event: a failure to report, if any, and the next work.
#[derive(Debug, PartialEq, Eq)]
pub struct ConvertingStep {
    pub failure: Option<FileFailure>,
    pub action: ConvertingAction,
}

/// The model of a state.
pub enum ConvertingModel {
    Locating,
    Reading { sources: Seq<Seq<char>>, next: nat, song_dirs: Seq<Seq<char>> },
    Writing { sources: Seq<Seq<char>>, next: nat, song_dirs: Seq<Seq<char>> },
    Mirroring,
    Ended,
}

/// The model of an event. A result without a value is the error, if any.
pub enum EventModel {
    Located(Result<Seq<Seq<char>>, ErrorModel>),
    SourceRead(Result<Seq<u8>, Seq<char>>),
    Written,
    Mirrored(Option<ErrorModel>),
}

/// The model of an action. The end carries the error, if any.
pub enum ActionModel {
    Locate,
    Read { source: Seq<char> },
    Write { artifacts: Seq<(Seq<char>, Seq<u8>)> },
    Mirror { steps: Seq<StepModel> },
    End(Option<ErrorModel>),
    Nothing,
}

/// The error of a result without a value, if it is one.
pub open spec fn error_of(r: Result<(), PipelineError>) -> Option<ErrorModel> {
    match r {
        Ok(_) => None,
        Err(e) => Some(e@),
    }
}

impl View for ConvertingState {
    type V = ConvertingModel;

    open spec fn view(&self) -> ConvertingModel {
        match *self {
            ConvertingState::Locating => ConvertingModel::Locating,
            ConvertingState::Reading { sources, next, song_dirs } => ConvertingModel::Reading {
                sources: texts(sources@),
                next: next as nat,
                song_dirs: texts(song_dirs@),
            },
            ConvertingState::Writing { sources, next, song_dirs } => ConvertingModel::Writing {
                sources: texts(sources@),
                next: next as nat,
                song_dirs: texts(song_dirs@),
            },
            ConvertingState::Mirroring => ConvertingModel::Mirroring,
            ConvertingState::Ended => ConvertingModel::Ended,
        }
    }
}

impl View for ConvertingEvent {
    type V = EventModel;

    open spec fn view(&self) -> EventModel {
        match *self {
            ConvertingEvent::Located(r) => EventModel::Located(
                match r {
                    Ok(files) => Ok(texts(files@)),
                    Err(e) => Err(e@),
                },
            ),
            ConvertingEvent::SourceRead(content) => EventModel::SourceRead(content_model(content)),
            ConvertingEvent::Written => EventModel::Written,
            ConvertingEvent::Mirrored(r) => EventModel::Mirrored(error_of(r)),
        }
    }
}

impl View for ConvertingAction {
    type V = ActionModel;

    open spec fn view(&self) -> ActionModel {
        match *self {
            ConvertingAction::Locate => ActionModel::Locate,
            ConvertingAction::Read { source } => ActionModel::Read { source: source@ },
            ConvertingAction::Write { artifacts } => ActionModel::Write {
                artifacts: artifacts_model(artifacts@),
            },
            ConvertingAction::Mirror { steps } => ActionModel::Mirror { steps: steps_model(steps@) },
            ConvertingAction::End(r) => ActionModel::End(error_of(r)),
            ConvertingAction::Nothing => ActionModel::Nothing,
        }
    }
}

/// The model of a failure to report.
pub open spec fn failure_model(f: Option<FileFailure>) -> Option<(Seq<char>, ErrorModel)> {
    match f {
        Some(failure) => Some((failure.source@, failure.error@)),
        None => None,
    }
}

/// The state and the work that follow when the sources before `next` are
/// done: the source at `next` is read, or, after the last, the song
/// directories are mirrored to the destination `root`. A plan without
/// steps ends the stage in success, a plan that is refused ends it with
/// the error.
pub open spec fn onward(
    sources: Seq<Seq<char>>,
    next: nat,
    song_dirs: Seq<Seq<char>>,
    root: Seq<char>,
) -> (ConvertingModel, ActionModel) {
    if next < sources.len() {
        (
            ConvertingModel::Reading { sources, next, song_dirs },
            ActionModel::Read { source: sources[next as int] },
        )
    } else {
        match mirror_steps(root, song_dirs) {
            Err(e) => (ConvertingModel::Ended, ActionModel::End(Some(e))),
            Ok(steps) => if steps.len() == 0 {
                (ConvertingModel::Ended, ActionModel::End(None))
            } else {
                (ConvertingModel::Mirroring, ActionModel::Mirror { steps })
            },
        }
    }
}

/// What follows `event` in `state`, with the destination `root`: the new
/// state, the next work, and the source to report as passed over, if the
/// event was the reading of one that failed.
pub open spec fn converting_next(state: ConvertingModel, event: EventModel, root: Seq<char>) -> (
    ConvertingModel,
    ActionModel,
    Option<(Seq<char>, ErrorModel)>,
) {
    match (state, event) {
        (ConvertingModel::Locating, EventModel::Located(Err(e))) => (
            ConvertingModel::Ended,
            ActionModel::End(Some(e)),
            None,
        ),
        (ConvertingModel::Locating, EventModel::Located(Ok(files))) => {
            let sources = chart_sources(files);
            let next = onward(sources, 0, song_dirs(sources), root);
            (next.0, next.1, None)
        },
        (
            ConvertingModel::Reading { sources, next, song_dirs },
            EventModel::SourceRead(content),
        ) if next < sources.len() => match converted(sources[next as int], content) {
            Ok(artifacts) => (
                ConvertingModel::Writing { sources, next, song_dirs },
                ActionModel::Write { artifacts },
                None,
            ),
            Err(e) => {
                let after = onward(sources, next + 1, song_dirs, root);
                (after.0, after.1, Some((sources[next as int], e)))
            },
        },
        (ConvertingModel::Writing { sources, next, song_dirs }, EventModel::Written) if next
            < sources.len() => {
            let after = onward(sources, next + 1, song_dirs, root);
            (after.0, after.1, None)
        },
        (ConvertingModel::Mirroring, EventModel::Mirrored(error)) => (
            ConvertingModel::Ended,
            ActionModel::End(error),
            None,
        ),
        _ => (state, ActionModel::Nothing, None),
    }
}

/// Begins the stage: the tree is to be listed.
pub fn start_converting() -> (r: (ConvertingState, ConvertingAction))
    ensures
        r.0@ == ConvertingModel::Locating,
        r.1@ == ActionModel::Locate,
{
    (ConvertingState::Locating, ConvertingAction::Locate)
}

/// Goes on to the source at `next`, or to the mirror steps after the last.
fn go_on(sources: Vec<String>, next: usize, dirs: Vec<String>, config: &MirrorConfiguration) -> (r:
    (ConvertingState, ConvertingAction))
    requires
        next <= sources@.len(),
    ensures
        (r.0@, r.1@) == onward(
            texts(sources@),
            next as nat,
            texts(dirs@),
            config.destination_root@,
        ),
{
    if next < sources.len() {
        let source = sources[next].clone();
        (
            ConvertingState::Reading { sources, next, song_dirs: dirs },
            ConvertingAction::Read { source },
        )
    } else {
        match plan_steps(&dirs, config) {
            Err(e) => (ConvertingState::Ended, ConvertingAction::End(Err(e))),
            Ok(steps) => if steps.len() == 0 {
                (ConvertingState::Ended, ConvertingAction::End(Ok(())))
            } else {
                (ConvertingState::Mirroring, ConvertingAction::Mirror { steps })
            },
        }
    }
}

/// Moves the stage on an event, and says what follows.
pub fn converting_step(
    state: ConvertingState,
    event: ConvertingEvent,
    config: &MirrorConfiguration,
) -> (r: (ConvertingState, ConvertingStep))
    ensures
        r.0@ == converting_next(state@, event@, config.destination_root@).0,
        r.1.action@ == converting_next(state@, event@, config.destination_root@).1,
        failure_model(r.1.failure) == converting_next(state@, event@, config.destination_root@).2,
{
    match (state, event) {
        (ConvertingState::Locating, ConvertingEvent::Located(Err(e))) => (
            ConvertingState::Ended,
            ConvertingStep { failure: None, action: ConvertingAction::End(Err(e)) },
        ),
        (ConvertingState::Locating, ConvertingEvent::Located(Ok(files))) => {
            let found = locate(&files);
            let next = go_on(found.sources, 0, found.song_dirs, config);
            (next.0, ConvertingStep { failure: None, action: next.1 })
        },
        (
            ConvertingState::Reading { sources, next, song_dirs },
            ConvertingEvent::SourceRead(content),
        ) => {
            if next < sources.len() {
                match convert_source(sources[next].as_str(), content) {
                    Ok(artifacts) => (
                        ConvertingState::Writing { sources, next, song_dirs },
                        ConvertingStep {
                            failure: None,
                            action: ConvertingAction::Write { artifacts },
                        },
                    ),
                    Err(error) => {
                        let source = sources[next].clone();
                        let after = go_on(sources, next + 1, song_dirs, config);
                        (
                            after.0,
                            ConvertingStep {
                                failure: Some(FileFailure { source, error }),
                                action: after.1,
                            },
                        )
                    },
                }
            } else {
                (
                    ConvertingState::Reading { sources, next, song_dirs },
                    ConvertingStep { failure: None, action: ConvertingAction::Nothing },
                )
            }
        },
        (ConvertingState::Writing { sources, next, song_dirs }, ConvertingEvent::Written) => {
            if next < sources.len() {
                let after = go_on(sources, next + 1, song_dirs, config);
                (after.0, ConvertingStep { failure: None, action: after.1 })
            } else {
                (
                    ConvertingState::Writing { sources, next, song_dirs },
                    ConvertingStep { failure: None, action: ConvertingAction::Nothing },
                )
            }
        },
        (ConvertingState::Mirroring, ConvertingEvent::Mirrored(r)) => (
            ConvertingState::Ended,
            ConvertingStep { failure: None, action: ConvertingAction::End(r) },
        ),
        (state, _) => (state, ConvertingStep { failure: None, action: ConvertingAction::Nothing }),
    }
}

/// A tree that cannot be listed is fatal: the stage ends with the error.
/// A source that cannot be read or converted is not: it is reported, and
/// the stage goes on as it does after a source that was written.
pub proof fn lemma_failures(
    error: ErrorModel,
    sources: Seq<Seq<char>>,
    next: nat,
    song_dirs: Seq<Seq<char>>,
    content: Result<Seq<u8>, Seq<char>>,
    root: Seq<char>,
)
    ensures
        converting_next(ConvertingModel::Locating, EventModel::Located(Err(error)), root) == (
            ConvertingModel::Ended,
            ActionModel::End(Some(error)),
            None::<(Seq<char>, ErrorModel)>,
        ),
        next < sources.len() && converted(sources[next as int], content) is Err ==> ({
            let read = converting_next(
                ConvertingModel::Reading { sources, next, song_dirs },
                EventModel::SourceRead(content),
                root,
            );
            let written = converting_next(
                ConvertingModel::Writing { sources, next, song_dirs },
                EventModel::Written,
                root,
            );
            &&& read.2 == Some((sources[next as int], converted(sources[next as int], content)->Err_0))
            &&& read.0 == written.0
            &&& read.1 == written.1
        }),
{
}

/// The work of the stage comes in order. A source is read only after the
/// tree was listed or the source before it was done with; artifacts are
/// written only for a source that was just read; and the mirror steps come
/// only when the last source is done with, or when the tree holds none.
pub proof fn lemma_converting_order(state: ConvertingModel, event: EventModel, root: Seq<char>)
    ensures
        converting_next(state, event, root).1 is Read ==> (state is Locating && event is Located)
            || (state is Reading && event is SourceRead && state->Reading_next + 1
            < state->Reading_sources.len()) || (state is Writing && event is Written
            && state->Writing_next + 1 < state->Writing_sources.len()),
        converting_next(state, event, root).1 is Write ==> state is Reading && event is SourceRead
            && state->Reading_next < state->Reading_sources.len(),
        converting_next(state, event, root).1 is Mirror ==> (state is Locating && event is Located
            && event->Located_0 is Ok && chart_sources(event->Located_0->Ok_0).len() == 0) || (
        state is Reading && event is SourceRead && state->Reading_next + 1
            == state->Reading_sources.len()) || (state is Writing && event is Written
            && state->Writing_next + 1 == state->Writing_sources.len()),
        state is Ended ==> converting_next(state, event, root) == (
            state,
            ActionModel::Nothing,
            None::<(Seq<char>, ErrorModel)>,
        ),
{
}

} // verus!
