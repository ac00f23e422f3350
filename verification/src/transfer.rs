//! The order of a download: request, judge the response, create the file,
//! receive, close.
//!
//! Sending, reading and writing are the caller's work. The transfer
//! decides what is done next, so that no file is touched before the
//! response has been judged a success.

use crate::download::{
    download_headers, is_success, request_headers, DownloadTarget,
};
use crate::error::{ErrorModel, PipelineError};
use crate::progress::{Arrival, DownloadProgress, ProgressEvent};
use crate::url::pairs_view;
use vstd::prelude::*;

verus! {

/// Where a transfer stands.
#[derive(Debug, Clone, Copy, PartialEq, Eq, Structural)]
pub enum TransferState {
    /// The request is under way.
    Requesting,
    /// The file is being created.
    Opening { progress: DownloadProgress },
    /// The body is being received, chunk by chunk.
    Receiving { progress: DownloadProgress },
    /// The file is being flushed.
    Closing { progress: DownloadProgress },
    /// The transfer is over.
    Ended,
}

/// What the caller's work gave.
#[derive(Debug, Clone, PartialEq, Eq)]
pub enum TransferEvent {
    /// The host could not be reached.
    NoResponse { cause: String },
    /// The response arrived: its status, the length that it announces, if
    /// any, and the reading of the clock.
    Response { status: u16, content_length: Option<u64>, now_ms: u64 },
    /// The directory and the file are there, the file empty.
    Opened,
    /// The directory or the file could not be created.
    OpenFailed { cause: String },
    /// A chunk of this length was read and appended to the file.
    Chunk { len: u64, now_ms: u64 },
    /// The stream broke.
    ReadFailed { cause: String },
    /// A chunk could not be appended to the file.
    WriteFailed { cause: String },
    /// The stream has ended.
    StreamEnded,
    /// The file is flushed.
    Synced,
    /// The file could not be flushed.
    SyncFailed { cause: String },
}

/// What the caller does next.
#[derive(Debug, PartialEq, Eq)]
pub enum TransferAction {
    /// Send a GET request for the URL with the headers.
    Send { url: String, headers: Vec<(String, String)> },
    /// Create the directory if it is missing, then the file, empty.
    CreateFile { dir: String, path: String },
    /// Read the next chunk of the body and append it to the file.
    ReadChunk,
    /// Flush the file.
    Sync,
    /// The transfer is over: with the path of the file, or failed.
    End(Result<String, PipelineError>),
    /// The event is not that of the current work: nothing changes.
    Nothing,
}

/// What follows an event: an event to emit, if any, and the next work.
#[derive(Debug, PartialEq, Eq)]
pub struct TransferStep {
    pub emit: Option<ProgressEvent>,
    pub action: TransferAction,
}

/// One transfer of one archive.
#[derive(Debug, Clone, PartialEq, Eq)]
pub struct Transfer {
    pub pack_id: u64,
    pub dir: String,
    pub path: String,
    pub state: TransferState,
}

/// The model of an event.
pub enum TransferEventModel {
    NoResponse { cause: Seq<char> },
    Response { status: u16, content_length: Option<u64>, now_ms: u64 },
    Opened,
    OpenFailed { cause: Seq<char> },
    Chunk { len: u64, now_ms: u64 },
    ReadFailed { cause: Seq<char> },
    WriteFailed { cause: Seq<char> },
    StreamEnded,
    Synced,
    SyncFailed { cause: Seq<char> },
}

/// The model of an action.
pub enum TransferActionModel {
    Send { url: Seq<char>, headers: Seq<(Seq<char>, Seq<char>)> },
    CreateFile { dir: Seq<char>, path: Seq<char> },
    ReadChunk,
    Sync,
    End(Result<Seq<char>, ErrorModel>),
    Nothing,
}

impl View for TransferEvent {
    type V = TransferEventModel;

    open spec fn view(&self) -> TransferEventModel {
        match *self {
            TransferEvent::NoResponse { cause } => TransferEventModel::NoResponse { cause: cause@ },
            TransferEvent::Response { status, content_length, now_ms } => {
                TransferEventModel::Response { status, content_length, now_ms }
            },
            TransferEvent::Opened => TransferEventModel::Opened,
            TransferEvent::OpenFailed { cause } => TransferEventModel::OpenFailed { cause: cause@ },
            TransferEvent::Chunk { len, now_ms } => TransferEventModel::Chunk { len, now_ms },
            TransferEvent::ReadFailed { cause } => TransferEventModel::ReadFailed { cause: cause@ },
            TransferEvent::WriteFailed { cause } => TransferEventModel::WriteFailed {
                cause: cause@,
            },
            TransferEvent::StreamEnded => TransferEventModel::StreamEnded,
            TransferEvent::Synced => TransferEventModel::Synced,
            TransferEvent::SyncFailed { cause } => TransferEventModel::SyncFailed { cause: cause@ },
        }
    }
}

impl View for TransferAction {
    type V = TransferActionModel;

    open spec fn view(&self) -> TransferActionModel {
        match *self {
            TransferAction::Send { url, headers } => TransferActionModel::Send {
                url: url@,
                headers: pairs_view(headers@),
            },
            TransferAction::CreateFile { dir, path } => TransferActionModel::CreateFile {
                dir: dir@,
                path: path@,
            },
            TransferAction::ReadChunk => TransferActionModel::ReadChunk,
            TransferAction::Sync => TransferActionModel::Sync,
            TransferAction::End(r) => TransferActionModel::End(
                match r {
                    Ok(path) => Ok(path@),
                    Err(e) => Err(e@),
                },
            ),
            TransferAction::Nothing => TransferActionModel::Nothing,
        }
    }
}

/// The cause reported for a body with more bytes than can be counted.
pub open spec fn uncountable_text() -> Seq<char> {
    "the body is too long to count"@
}

/// The transfer that failed with `error`.
pub open spec fn failed(error: ErrorModel) -> (
    TransferState,
    TransferActionModel,
    Option<ProgressEvent>,
) {
    (TransferState::Ended, TransferActionModel::End(Err(error)), None)
}

/// What follows `event` in `state`, for the file at `path` in `dir`: the
/// new state, the next work, and the event to emit, if any.
pub open spec fn transfer_next(
    state: TransferState,
    event: TransferEventModel,
    pack_id: u64,
    dir: Seq<char>,
    path: Seq<char>,
) -> (TransferState, TransferActionModel, Option<ProgressEvent>) {
    match (state, event) {
        (TransferState::Requesting, TransferEventModel::NoResponse { cause }) => failed(
            ErrorModel::Connection(cause),
        ),
        (
            TransferState::Requesting,
            TransferEventModel::Response { status, content_length, now_ms },
        ) => if is_success(status) {
            (
                TransferState::Opening {
                    progress: DownloadProgress {
                        pack_id,
                        announced: match content_length {
                            Some(n) => n,
                            None => 0,
                        },
                        received: 0,
                        last_emit_ms: now_ms,
                    },
                },
                TransferActionModel::CreateFile { dir, path },
                None,
            )
        } else {
            failed(ErrorModel::HttpStatus(status))
        },
        (TransferState::Opening { progress }, TransferEventModel::Opened) => (
            TransferState::Receiving { progress },
            TransferActionModel::ReadChunk,
            None,
        ),
        (TransferState::Opening { .. }, TransferEventModel::OpenFailed { cause }) => failed(
            ErrorModel::Io(path, cause),
        ),
        (TransferState::Receiving { progress }, TransferEventModel::Chunk { len, now_ms }) => if progress.received
            + len <= u64::MAX {
            (
                TransferState::Receiving {
                    progress: progress.step(Arrival { len, at_ms: now_ms }),
                },
                TransferActionModel::ReadChunk,
                progress.emitted(Arrival { len, at_ms: now_ms }),
            )
        } else {
            failed(ErrorModel::Io(path, uncountable_text()))
        },
        (TransferState::Receiving { .. }, TransferEventModel::ReadFailed { cause }) => failed(
            ErrorModel::Connection(cause),
        ),
        (TransferState::Receiving { .. }, TransferEventModel::WriteFailed { cause }) => failed(
            ErrorModel::Io(path, cause),
        ),
        (TransferState::Receiving { progress }, TransferEventModel::StreamEnded) => (
            TransferState::Closing { progress },
            TransferActionModel::Sync,
            Some(progress.closing()),
        ),
        (TransferState::Closing { .. }, TransferEventModel::Synced) => (
            TransferState::Ended,
            TransferActionModel::End(Ok(path)),
            None,
        ),
        (TransferState::Closing { .. }, TransferEventModel::SyncFailed { cause }) => failed(
            ErrorModel::Io(path, cause),
        ),
        _ => (state, TransferActionModel::Nothing, None),
    }
}

impl Transfer {
    /// Begins the transfer for a target: the request is to be sent.
    pub fn begin(pack_id: u64, target: &DownloadTarget) -> (r: (Transfer, TransferStep))
        ensures
            r.0.pack_id == pack_id,
            r.0.dir@ == target.destination_dir@,
            r.0.path@ == target.path(),
            r.0.state == TransferState::Requesting,
            r.1.emit is None,
            r.1.action@ == (TransferActionModel::Send {
                url: target.url@,
                headers: download_headers(),
            }),
    {
        (
            Transfer {
                pack_id,
                dir: target.destination_dir.clone(),
                path: target.local_path(),
                state: TransferState::Requesting,
            },
            TransferStep {
                emit: None,
                action: TransferAction::Send { url: target.url.clone(), headers: request_headers() },
            },
        )
    }

    /// The transfer, failed with `error`.
    fn fail(self, error: PipelineError) -> (r: (Transfer, TransferStep))
        ensures
            r.0.pack_id == self.pack_id,
            r.0.dir == self.dir,
            r.0.path == self.path,
            (r.0.state, r.1.action@, r.1.emit) == failed(error@),
    {
        (
            Transfer {
                pack_id: self.pack_id,
                dir: self.dir,
                path: self.path,
                state: TransferState::Ended,
            },
            TransferStep { emit: None, action: TransferAction::End(Err(error)) },
        )
    }

    /// The transfer in a new state, with the next work.
    fn go(self, state: TransferState, emit: Option<ProgressEvent>, action: TransferAction) -> (r: (
        Transfer,
        TransferStep,
    ))
        ensures
            r.0.pack_id == self.pack_id,
            r.0.dir == self.dir,
            r.0.path == self.path,
            r.0.state == state,
            r.1.emit == emit,
            r.1.action == action,
    {
        (
            Transfer { pack_id: self.pack_id, dir: self.dir, path: self.path, state },
            TransferStep { emit, action },
        )
    }

    /// Moves the transfer on an event, and says what follows.
    pub fn advance(self, event: TransferEvent) -> (r: (Transfer, TransferStep))
        ensures
            r.0.pack_id == self.pack_id,
            r.0.dir@ == self.dir@,
            r.0.path@ == self.path@,
            (r.0.state, r.1.action@, r.1.emit) == transfer_next(
                self.state,
                event@,
                self.pack_id,
                self.dir@,
                self.path@,
            ),
    {
        let state = self.state;
        match (state, event) {
            (TransferState::Requesting, TransferEvent::NoResponse { cause }) => self.fail(
                PipelineError::ConnectionError(cause),
            ),
            (
                TransferState::Requesting,
                TransferEvent::Response { status, content_length, now_ms },
            ) => {
                if 200 <= status && status < 300 {
                    let progress = DownloadProgress::new(self.pack_id, content_length, now_ms);
                    let action = TransferAction::CreateFile {
                        dir: self.dir.clone(),
                        path: self.path.clone(),
                    };
                    self.go(TransferState::Opening { progress }, None, action)
                } else {
                    self.fail(PipelineError::HttpStatusError(status))
                }
            },
            (TransferState::Opening { progress }, TransferEvent::Opened) => self.go(
                TransferState::Receiving { progress },
                None,
                TransferAction::ReadChunk,
            ),
            (TransferState::Opening { .. }, TransferEvent::OpenFailed { cause }) => {
                let path = self.path.clone();
                self.fail(PipelineError::IoError(path, cause))
            },
            (TransferState::Receiving { progress }, TransferEvent::Chunk { len, now_ms }) => {
                if len <= u64::MAX - progress.received {
                    let mut progress = progress;
                    let emit = progress.on_chunk(len, now_ms);
                    self.go(TransferState::Receiving { progress }, emit, TransferAction::ReadChunk)
                } else {
                    let path = self.path.clone();
                    self.fail(
                        PipelineError::IoError(path, "the body is too long to count".to_owned()),
                    )
                }
            },
            (TransferState::Receiving { .. }, TransferEvent::ReadFailed { cause }) => self.fail(
                PipelineError::ConnectionError(cause),
            ),
            (TransferState::Receiving { .. }, TransferEvent::WriteFailed { cause }) => {
                let path = self.path.clone();
                self.fail(PipelineError::IoError(path, cause))
            },
            (TransferState::Receiving { progress }, TransferEvent::StreamEnded) => {
                let emit = progress.finish();
                self.go(TransferState::Closing { progress }, Some(emit), TransferAction::Sync)
            },
            (TransferState::Closing { .. }, TransferEvent::Synced) => {
                let path = self.path.clone();
                self.go(TransferState::Ended, None, TransferAction::End(Ok(path)))
            },
            (TransferState::Closing { .. }, TransferEvent::SyncFailed { cause }) => {
                let path = self.path.clone();
                self.fail(PipelineError::IoError(path, cause))
            },
            (_, _) => self.go(state, None, TransferAction::Nothing),
        }
    }
}

/// The file is created on one occasion only: when the response to the
/// request has arrived with a status of success. A response with any other
/// status ends the transfer with that status, emits nothing and asks for
/// no work on the file.
pub proof fn lemma_no_file_before_success(
    state: TransferState,
    event: TransferEventModel,
    pack_id: u64,
    dir: Seq<char>,
    path: Seq<char>,
)
    ensures
        transfer_next(state, event, pack_id, dir, path).1 is CreateFile ==> state is Requesting
            && event is Response && is_success(event->Response_status),
        state is Requesting && event is Response && !is_success(event->Response_status)
            ==> transfer_next(state, event, pack_id, dir, path) == failed(
            ErrorModel::HttpStatus(event->Response_status),
        ),
        state is Requesting ==> !(transfer_next(state, event, pack_id, dir, path).1 is ReadChunk)
            && !(transfer_next(state, event, pack_id, dir, path).1 is Sync),
{
}

/// A chunk is asked for only while the file is open: after it was created,
/// or after a chunk was appended. A transfer that has ended stays ended.
pub proof fn lemma_transfer_order(
    state: TransferState,
    event: TransferEventModel,
    pack_id: u64,
    dir: Seq<char>,
    path: Seq<char>,
)
    ensures
        transfer_next(state, event, pack_id, dir, path).1 is ReadChunk ==> (state is Opening
            && event is Opened) || (state is Receiving && event is Chunk),
        transfer_next(state, event, pack_id, dir, path).1 is Sync ==> state is Receiving && event
            is StreamEnded,
        transfer_next(state, event, pack_id, dir, path).1 matches TransferActionModel::End(Ok(p))
            ==> state is Closing && event is Synced && p == path,
        state is Ended ==> transfer_next(state, event, pack_id, dir, path) == (
            state,
            TransferActionModel::Nothing,
            None::<ProgressEvent>,
        ),
{
}

} // verus!
