use pack_pipeline::download::DownloadTarget;
use pack_pipeline::error::PipelineError;
use pack_pipeline::progress::{DownloadProgress, ProgressEvent, Stage};
use pack_pipeline::transfer::{
    Transfer, TransferAction, TransferEvent, TransferState, TransferStep,
};

fn target() -> DownloadTarget {
    DownloadTarget::new("https://host/packs/pack.zip?t=1".to_string(), "/w")
}

fn requesting() -> Transfer {
    Transfer::begin(7, &target()).0
}

fn response(status: u16, content_length: Option<u64>) -> TransferEvent {
    TransferEvent::Response { status, content_length, now_ms: 10 }
}

fn receiving() -> Transfer {
    let (t, _) = requesting().advance(response(200, Some(300_000)));
    t.advance(TransferEvent::Opened).0
}

fn ended_with(error: PipelineError) -> TransferStep {
    TransferStep { emit: None, action: TransferAction::End(Err(error)) }
}

#[test]
fn transfer_begins_with_the_request() {
    let (transfer, step) = Transfer::begin(7, &target());
    assert_eq!(
        transfer,
        Transfer {
            pack_id: 7,
            dir: "/w/downloads".to_string(),
            path: "/w/downloads/pack.zip".to_string(),
            state: TransferState::Requesting,
        }
    );
    assert_eq!(
        step,
        TransferStep {
            emit: None,
            action: TransferAction::Send {
                url: "https://host/packs/pack.zip?t=1".to_string(),
                headers: vec![
                    ("Accept".to_string(), "*/*".to_string()),
                    ("Origin".to_string(), "https://etternaonline.com".to_string()),
                ],
            },
        }
    );
}

#[test]
fn refused_status_ends_the_transfer_before_any_file_is_made() {
    for status in [0u16, 199, 300, 404, 500] {
        let (transfer, step) = requesting().advance(response(status, Some(10)));
        assert_eq!(transfer.state, TransferState::Ended);
        assert_eq!(step, ended_with(PipelineError::HttpStatusError(status)));
    }
}

#[test]
fn unreachable_host_ends_the_transfer() {
    let (transfer, step) =
        requesting().advance(TransferEvent::NoResponse { cause: "refused".to_string() });
    assert_eq!(transfer.state, TransferState::Ended);
    assert_eq!(step, ended_with(PipelineError::ConnectionError("refused".to_string())));
}

#[test]
fn success_is_followed_by_the_file_then_the_first_chunk() {
    let (transfer, step) = requesting().advance(response(206, None));
    assert_eq!(
        transfer.state,
        TransferState::Opening {
            progress: DownloadProgress { pack_id: 7, announced: 0, received: 0, last_emit_ms: 10 }
        }
    );
    assert_eq!(
        step,
        TransferStep {
            emit: None,
            action: TransferAction::CreateFile {
                dir: "/w/downloads".to_string(),
                path: "/w/downloads/pack.zip".to_string(),
            },
        }
    );
    let (transfer, step) = transfer.advance(TransferEvent::Opened);
    assert!(matches!(transfer.state, TransferState::Receiving { .. }));
    assert_eq!(step, TransferStep { emit: None, action: TransferAction::ReadChunk });
}

#[test]
fn file_that_cannot_be_created_ends_the_transfer() {
    let (transfer, _) = requesting().advance(response(200, None));
    let (transfer, step) =
        transfer.advance(TransferEvent::OpenFailed { cause: "denied".to_string() });
    assert_eq!(transfer.state, TransferState::Ended);
    assert_eq!(
        step,
        ended_with(PipelineError::IoError("/w/downloads/pack.zip".to_string(), "denied".to_string()))
    );
}

#[test]
fn chunks_are_counted_and_reported_by_the_policy() {
    let (transfer, step) = receiving().advance(TransferEvent::Chunk { len: 100, now_ms: 20 });
    assert_eq!(step, TransferStep { emit: None, action: TransferAction::ReadChunk });
    let (transfer, step) = transfer.advance(TransferEvent::Chunk { len: 102_300, now_ms: 30 });
    assert_eq!(
        step,
        TransferStep {
            emit: Some(ProgressEvent {
                pack_id: 7,
                downloaded: 102_400,
                total: 300_000,
                stage: Stage::Downloading
            }),
            action: TransferAction::ReadChunk,
        }
    );
    let (transfer, step) = transfer.advance(TransferEvent::Chunk { len: 1, now_ms: 530 });
    assert_eq!(step.emit.map(|e| e.downloaded), Some(102_401));
    let (transfer, step) = transfer.advance(TransferEvent::StreamEnded);
    assert_eq!(
        step,
        TransferStep {
            emit: Some(ProgressEvent {
                pack_id: 7,
                downloaded: 102_401,
                total: 102_401,
                stage: Stage::Downloading
            }),
            action: TransferAction::Sync,
        }
    );
    let (transfer, step) = transfer.advance(TransferEvent::Synced);
    assert_eq!(transfer.state, TransferState::Ended);
    assert_eq!(
        step,
        TransferStep {
            emit: None,
            action: TransferAction::End(Ok("/w/downloads/pack.zip".to_string()))
        }
    );
}

#[test]
fn broken_stream_and_failed_write_end_the_transfer() {
    let (_, step) = receiving().advance(TransferEvent::ReadFailed { cause: "reset".to_string() });
    assert_eq!(step, ended_with(PipelineError::ConnectionError("reset".to_string())));
    let (_, step) = receiving().advance(TransferEvent::WriteFailed { cause: "full".to_string() });
    assert_eq!(
        step,
        ended_with(PipelineError::IoError("/w/downloads/pack.zip".to_string(), "full".to_string()))
    );
    let (closing, _) = receiving().advance(TransferEvent::StreamEnded);
    let (_, step) = closing.advance(TransferEvent::SyncFailed { cause: "io".to_string() });
    assert_eq!(
        step,
        ended_with(PipelineError::IoError("/w/downloads/pack.zip".to_string(), "io".to_string()))
    );
}

#[test]
fn body_too_long_to_count_ends_the_transfer() {
    let (transfer, _) = receiving().advance(TransferEvent::Chunk { len: u64::MAX, now_ms: 20 });
    let (transfer, step) = transfer.advance(TransferEvent::Chunk { len: 1, now_ms: 30 });
    assert_eq!(transfer.state, TransferState::Ended);
    assert_eq!(
        step,
        ended_with(PipelineError::IoError(
            "/w/downloads/pack.zip".to_string(),
            "the body is too long to count".to_string()
        ))
    );
}

#[test]
fn event_of_other_work_changes_nothing_in_a_transfer() {
    let (transfer, step) = requesting().advance(TransferEvent::Opened);
    assert_eq!(transfer, requesting());
    assert_eq!(step, TransferStep { emit: None, action: TransferAction::Nothing });
    let (transfer, step) = requesting().advance(TransferEvent::Chunk { len: 1, now_ms: 1 });
    assert_eq!(transfer, requesting());
    assert_eq!(step.action, TransferAction::Nothing);
    let ended = requesting().advance(response(404, None)).0;
    let (after, step) = ended.clone().advance(response(200, None));
    assert_eq!(after, ended);
    assert_eq!(step.action, TransferAction::Nothing);
}
