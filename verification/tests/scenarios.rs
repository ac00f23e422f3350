use pack_pipeline::convert::{convert_batch, SourceFile};
use pack_pipeline::locate::locate;
use pack_pipeline::mirror::{plan_mirror, CopyWalk, MirrorConfiguration, MirrorJob};
use pack_pipeline::pipeline::{Run, RunAction, StageOutcome};
use pack_pipeline::progress::{DownloadProgress, Stage};
use pack_pipeline::walk::{DirEntry, TreeWalk};

fn chart(difficulty: &str) -> Vec<u8> {
    format!(
        "#TITLE:Song;\n#ARTIST:Artist;\n#OFFSET:0;\n#BPMS:0=120;\n#STOPS:;\n\n#NOTES:\n     dance-single:\n     :\n     {}:\n     8:\n     0,0,0,0,0:\n0000\n1000\n0100\n0010\n,\n0001\n0000\n1000\n0100\n;\n",
        difficulty
    )
    .into_bytes()
}

fn entry(name: &str, is_dir: bool) -> DirEntry {
    DirEntry { name: name.to_string(), is_dir }
}

fn listing(dir: &str) -> Vec<DirEntry> {
    match dir {
        "/w/downloads/pack" => vec![entry("SongA", true), entry("SongB", true)],
        "/w/downloads/pack/SongA" => vec![entry("chart.sm", false)],
        "/w/downloads/pack/SongB" => vec![entry("chart.sm", false)],
        _ => panic!("no such directory: {}", dir),
    }
}

fn run_to_conversion() -> (Run, String) {
    let (run, step) = Run::begin(5, "https://host/packs/pack.zip".to_string(), "/w");
    let target = match step.action {
        RunAction::Download { target } => target,
        other => panic!("unexpected action: {:?}", other),
    };
    assert_eq!(target.local_path(), "/w/downloads/pack.zip");
    let (run, step) = run.advance(StageOutcome::Downloaded(Ok(target.local_path())));
    let into = match step.action {
        RunAction::Extract { archive, into } => {
            assert_eq!(archive, "/w/downloads/pack.zip");
            into
        }
        other => panic!("unexpected action: {:?}", other),
    };
    let (run, step) = run.advance(StageOutcome::Extracted(Ok(())));
    match step.action {
        RunAction::Convert { work_dir } => assert_eq!(work_dir, into),
        other => panic!("unexpected action: {:?}", other),
    }
    (run, into)
}

#[test]
fn archive_of_two_songs_gives_two_artifacts_and_two_mirrored_directories() {
    let (run, work_dir) = run_to_conversion();
    let mut walk = TreeWalk::new(&work_dir);
    while let Some(dir) = walk.next_dir() {
        walk.visit(&dir, &listing(&dir));
    }
    let found = locate(&walk.into_files());
    assert_eq!(found.sources.len(), 2);
    assert_eq!(found.song_dirs.len(), 2);

    let files: Vec<SourceFile> = found
        .sources
        .iter()
        .map(|path| SourceFile { path: path.clone(), content: Ok(chart("Hard")) })
        .collect();
    let reports = convert_batch(files);
    let mut written: Vec<String> = Vec::new();
    for report in &reports {
        for artifact in report.outcome.as_ref().unwrap() {
            written.push(artifact.path.clone());
        }
    }
    written.sort();
    assert_eq!(
        written,
        vec![
            "/w/downloads/pack/SongA/chart - Hard.osu".to_string(),
            "/w/downloads/pack/SongB/chart - Hard.osu".to_string(),
        ]
    );

    let config = MirrorConfiguration::new("/songs".to_string());
    let mut jobs = plan_mirror(&found.song_dirs, &config).unwrap();
    jobs.sort_by(|a, b| a.target.cmp(&b.target));
    assert_eq!(
        jobs,
        vec![
            MirrorJob {
                source: "/w/downloads/pack/SongA".to_string(),
                target: "/songs/SongA".to_string()
            },
            MirrorJob {
                source: "/w/downloads/pack/SongB".to_string(),
                target: "/songs/SongB".to_string()
            },
        ]
    );
    let mut copied: Vec<String> = Vec::new();
    for job in jobs {
        let mut copy = CopyWalk::new(job);
        while let Some(dir) = copy.next_dir() {
            let mut entries = listing(&dir.source);
            entries.push(entry("chart - Hard.osu", false));
            for file in copy.visit(&dir, &entries) {
                copied.push(file.to);
            }
        }
    }
    assert_eq!(
        copied,
        vec![
            "/songs/SongA/chart.sm".to_string(),
            "/songs/SongA/chart - Hard.osu".to_string(),
            "/songs/SongB/chart.sm".to_string(),
            "/songs/SongB/chart - Hard.osu".to_string(),
        ]
    );

    let (run, step) = run.advance(StageOutcome::Converted(Ok(())));
    assert!(run.is_over());
    assert_eq!(step.action, RunAction::Finish(Ok("/w/downloads/pack.zip".to_string())));
}

#[test]
fn empty_song_path_makes_mirroring_a_no_op_and_the_run_succeeds() {
    let (run, work_dir) = run_to_conversion();
    let mut walk = TreeWalk::new(&work_dir);
    while let Some(dir) = walk.next_dir() {
        walk.visit(&dir, &listing(&dir));
    }
    let found = locate(&walk.into_files());
    let config = MirrorConfiguration::new(String::new());
    assert!(!config.is_set());
    assert_eq!(plan_mirror(&found.song_dirs, &config), Ok(vec![]));
    let (_, step) = run.advance(StageOutcome::Converted(Ok(())));
    assert_eq!(step.action, RunAction::Finish(Ok("/w/downloads/pack.zip".to_string())));
}

#[test]
fn archive_without_chart_sources_completes_trivially() {
    let (run, work_dir) = run_to_conversion();
    let mut walk = TreeWalk::new(&work_dir);
    while let Some(dir) = walk.next_dir() {
        walk.visit(&dir, &vec![entry("readme.txt", false)]);
    }
    let found = locate(&walk.into_files());
    assert!(found.sources.is_empty());
    assert!(found.song_dirs.is_empty());
    assert!(convert_batch(Vec::new()).is_empty());
    let config = MirrorConfiguration::new("/songs".to_string());
    assert_eq!(plan_mirror(&found.song_dirs, &config), Ok(vec![]));
    let (run, step) = run.advance(StageOutcome::Converted(Ok(())));
    assert!(run.is_over());
    assert_eq!(step.action, RunAction::Finish(Ok("/w/downloads/pack.zip".to_string())));
}

#[test]
fn download_of_the_whole_body_ends_with_received_equal_to_total() {
    let body = vec![0u8; 250_000];
    let mut progress = DownloadProgress::new(5, Some(body.len() as u64), 0);
    let mut events = Vec::new();
    let mut written = 0usize;
    let mut clock = 0u64;
    for chunk in body.chunks(16_384) {
        written += chunk.len();
        clock += 40;
        if let Some(e) = progress.on_chunk(chunk.len() as u64, clock) {
            events.push(e);
        }
    }
    events.push(progress.finish());
    assert_eq!(written, body.len());
    let last = events.last().unwrap();
    assert_eq!(last.downloaded, body.len() as u64);
    assert_eq!(last.downloaded, last.total);
    assert!(events.iter().all(|e| e.stage == Stage::Downloading && e.pack_id == 5));
    for pair in events.windows(2) {
        assert!(pair[0].downloaded <= pair[1].downloaded);
    }
}

#[test]
fn events_of_a_small_run_never_count_less() {
    let mut downloaded = vec![0u64];
    let mut progress = DownloadProgress::new(5, None, 0);
    for (len, at) in [(40u64, 600u64), (60, 1200)] {
        if let Some(e) = progress.on_chunk(len, at) {
            downloaded.push(e.downloaded);
        }
    }
    downloaded.push(progress.finish().downloaded);
    downloaded.push(pack_pipeline::progress::ProgressEvent::stage_entered(5, Stage::Extracting).downloaded);
    downloaded.push(pack_pipeline::progress::ProgressEvent::stage_entered(5, Stage::Converting).downloaded);
    assert_eq!(downloaded, vec![0, 40, 100, 100, 100, 100]);
}
