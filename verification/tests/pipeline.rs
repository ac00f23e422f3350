use pack_pipeline::download::DownloadTarget;
use pack_pipeline::error::PipelineError;
use pack_pipeline::pipeline::{failure_message, Run, RunAction, RunState, StageOutcome, Step};
use pack_pipeline::progress::{ProgressEvent, Stage};

fn started() -> Run {
    Run::begin(9, "https://host/packs/pack.zip".to_string(), "/w").0
}

fn extracting() -> Run {
    started().advance(StageOutcome::Downloaded(Ok("/w/downloads/pack.zip".to_string()))).0
}

fn converting() -> Run {
    extracting().advance(StageOutcome::Extracted(Ok(()))).0
}

#[test]
fn run_begins_with_the_download() {
    let (run, step) = Run::begin(9, "https://host/packs/pack.zip?t=1".to_string(), "/w");
    assert_eq!(run, Run { pack_id: 9, state: RunState::Downloading });
    assert!(!run.is_over());
    assert_eq!(
        step,
        Step {
            emit: Some(ProgressEvent { pack_id: 9, downloaded: 0, total: 0, stage: Stage::Downloading }),
            action: RunAction::Download {
                target: DownloadTarget {
                    url: "https://host/packs/pack.zip?t=1".to_string(),
                    destination_dir: "/w/downloads".to_string(),
                }
            },
        }
    );
}

#[test]
fn malformed_url_fails_the_run_before_any_request() {
    for url in ["", "not a url", "ftp://host/pack.zip", "/packs/pack.zip"] {
        let (run, step) = Run::begin(9, url.to_string(), "/w");
        assert_eq!(
            run.state,
            RunState::Failed { stage: Stage::Downloading, cause: PipelineError::UrlError }
        );
        assert!(run.is_over());
        assert_eq!(
            step,
            Step {
                emit: None,
                action: RunAction::Finish(Err("downloading failed: Invalid URL".to_string())),
            }
        );
    }
}

#[test]
fn download_is_followed_by_extraction_beside_the_archive() {
    let (run, step) =
        started().advance(StageOutcome::Downloaded(Ok("/w/downloads/pack.zip".to_string())));
    assert_eq!(
        run.state,
        RunState::Extracting {
            archive: "/w/downloads/pack.zip".to_string(),
            work_dir: "/w/downloads/pack".to_string(),
        }
    );
    assert_eq!(
        step,
        Step {
            emit: Some(ProgressEvent {
                pack_id: 9,
                downloaded: 100,
                total: 100,
                stage: Stage::Extracting
            }),
            action: RunAction::Extract {
                archive: "/w/downloads/pack.zip".to_string(),
                into: "/w/downloads/pack".to_string(),
            },
        }
    );
}

#[test]
fn extraction_is_followed_by_conversion() {
    let (run, step) = extracting().advance(StageOutcome::Extracted(Ok(())));
    assert_eq!(
        run.state,
        RunState::Converting {
            archive: "/w/downloads/pack.zip".to_string(),
            work_dir: "/w/downloads/pack".to_string(),
        }
    );
    assert_eq!(
        step,
        Step {
            emit: Some(ProgressEvent {
                pack_id: 9,
                downloaded: 100,
                total: 100,
                stage: Stage::Converting
            }),
            action: RunAction::Convert { work_dir: "/w/downloads/pack".to_string() },
        }
    );
}

#[test]
fn conversion_ends_the_run_with_the_archive_path() {
    let (run, step) = converting().advance(StageOutcome::Converted(Ok(())));
    assert_eq!(run.state, RunState::Done { archive: "/w/downloads/pack.zip".to_string() });
    assert!(run.is_over());
    assert_eq!(
        step,
        Step { emit: None, action: RunAction::Finish(Ok("/w/downloads/pack.zip".to_string())) }
    );
}

#[test]
fn failure_of_a_stage_ends_the_run_with_stage_and_cause() {
    let (run, step) =
        started().advance(StageOutcome::Downloaded(Err(PipelineError::HttpStatusError(404))));
    assert_eq!(
        run.state,
        RunState::Failed { stage: Stage::Downloading, cause: PipelineError::HttpStatusError(404) }
    );
    assert_eq!(
        step.action,
        RunAction::Finish(Err("downloading failed: HTTP error: 404".to_string()))
    );
    assert_eq!(step.emit, None);

    let (run, step) = extracting()
        .advance(StageOutcome::Extracted(Err(PipelineError::ArchiveError("corrupt entry".to_string()))));
    assert!(run.is_over());
    assert_eq!(
        step.action,
        RunAction::Finish(Err("extracting failed: Archive error: corrupt entry".to_string()))
    );

    let (run, step) = converting().advance(StageOutcome::Converted(Err(PipelineError::IoError(
        "/w/downloads/pack".to_string(),
        "unreadable".to_string(),
    ))));
    assert!(run.is_over());
    assert_eq!(
        step.action,
        RunAction::Finish(Err(
            "converting failed: I/O error at /w/downloads/pack: unreadable".to_string()
        ))
    );
}

#[test]
fn archive_without_a_file_name_fails_the_extraction() {
    let (run, step) = started().advance(StageOutcome::Downloaded(Ok("/w/downloads/".to_string())));
    assert_eq!(
        run.state,
        RunState::Failed {
            stage: Stage::Extracting,
            cause: PipelineError::ArchiveError("the archive path names no file".to_string()),
        }
    );
    assert_eq!(
        step.action,
        RunAction::Finish(Err(
            "extracting failed: Archive error: the archive path names no file".to_string()
        ))
    );
}

#[test]
fn outcome_of_another_stage_changes_nothing() {
    let (run, step) = started().advance(StageOutcome::Extracted(Ok(())));
    assert_eq!(run, started());
    assert_eq!(step, Step { emit: None, action: RunAction::Nothing });
    let (run, step) = started().advance(StageOutcome::Converted(Ok(())));
    assert_eq!(run, started());
    assert_eq!(step.action, RunAction::Nothing);
    let (run, step) = extracting().advance(StageOutcome::Converted(Ok(())));
    assert_eq!(run, extracting());
    assert_eq!(step.action, RunAction::Nothing);
    let (run, step) = converting().advance(StageOutcome::Downloaded(Ok("x.zip".to_string())));
    assert_eq!(run, converting());
    assert_eq!(step.action, RunAction::Nothing);
}

#[test]
fn ended_run_stays_as_it_is() {
    let done = converting().advance(StageOutcome::Converted(Ok(()))).0;
    for outcome in [
        StageOutcome::Downloaded(Ok("x.zip".to_string())),
        StageOutcome::Extracted(Err(PipelineError::UrlError)),
        StageOutcome::Converted(Ok(())),
    ] {
        let before = done.clone();
        let (after, step) = done.clone().advance(outcome);
        assert_eq!(after, before);
        assert_eq!(step, Step { emit: None, action: RunAction::Nothing });
    }
    let failed = started().advance(StageOutcome::Downloaded(Err(PipelineError::UrlError))).0;
    let (after, step) = failed.clone().advance(StageOutcome::Downloaded(Ok("x.zip".to_string())));
    assert_eq!(after, failed);
    assert_eq!(step.action, RunAction::Nothing);
}

#[test]
fn failure_message_names_stage_and_cause() {
    assert_eq!(
        failure_message(Stage::Extracting, &PipelineError::ArchiveError("bad".to_string())),
        "extracting failed: Archive error: bad"
    );
    assert_eq!(
        failure_message(Stage::Converting, &PipelineError::ConfigError("no songs".to_string())),
        "converting failed: Configuration error: no songs"
    );
}
