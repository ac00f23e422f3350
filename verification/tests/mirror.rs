use pack_pipeline::error::PipelineError;
use pack_pipeline::mirror::{
    mirror_job, plan_mirror, plan_steps, step_failure, CopyFile, CopyWalk, MirrorConfiguration,
    MirrorJob, MirrorStep,
};
use pack_pipeline::walk::DirEntry;
use std::collections::BTreeSet;

fn strings(items: &[&str]) -> Vec<String> {
    items.iter().map(|s| s.to_string()).collect()
}

fn job(source: &str, target: &str) -> MirrorJob {
    MirrorJob { source: source.to_string(), target: target.to_string() }
}

fn entry(name: &str, is_dir: bool) -> DirEntry {
    DirEntry { name: name.to_string(), is_dir }
}

fn invalid(dir: &str) -> PipelineError {
    PipelineError::IoError(dir.to_string(), "Invalid directory name".to_string())
}

#[test]
fn configuration_is_set_by_a_non_empty_root() {
    assert!(MirrorConfiguration::new("songs".to_string()).is_set());
    assert!(MirrorConfiguration::new(" ".to_string()).is_set());
    assert!(!MirrorConfiguration::new(String::new()).is_set());
}

#[test]
fn target_is_named_like_the_song_directory() {
    assert_eq!(mirror_job("songs", "w/p/SongA"), Ok(job("w/p/SongA", "songs/SongA")));
    assert_eq!(mirror_job("/home/u/Songs/", "SongA"), Ok(job("SongA", "/home/u/Songs/SongA")));
    assert_eq!(mirror_job("songs", "w/p/My Song (v2)"), Ok(job("w/p/My Song (v2)", "songs/My Song (v2)")));
}

#[test]
fn directory_without_a_usable_name_is_refused() {
    assert_eq!(mirror_job("songs", "w/p/"), Err(invalid("w/p/")));
    assert_eq!(mirror_job("songs", ""), Err(invalid("")));
    assert_eq!(mirror_job("songs", "w/p/.."), Err(invalid("w/p/..")));
    assert_eq!(mirror_job("songs", ".."), Err(invalid("..")));
    assert_eq!(mirror_job("songs", "w/."), Err(invalid("w/.")));
    assert_eq!(mirror_job("songs", "w/..."), Ok(job("w/...", "songs/...")));
}

#[test]
fn empty_destination_plans_nothing() {
    let config = MirrorConfiguration::new(String::new());
    assert_eq!(plan_mirror(&strings(&["w/p/SongA", "w/p/SongB"]), &config), Ok(vec![]));
    assert_eq!(plan_mirror(&strings(&["w/p/", ".."]), &config), Ok(vec![]));
    assert_eq!(plan_mirror(&Vec::new(), &config), Ok(vec![]));
}

#[test]
fn plan_has_one_job_for_each_directory_in_order() {
    let config = MirrorConfiguration::new("songs".to_string());
    assert_eq!(
        plan_mirror(&strings(&["w/p/SongB", "w/p/SongA", "w/q/SongC"]), &config),
        Ok(vec![
            job("w/p/SongB", "songs/SongB"),
            job("w/p/SongA", "songs/SongA"),
            job("w/q/SongC", "songs/SongC"),
        ])
    );
    assert_eq!(plan_mirror(&Vec::new(), &config), Ok(vec![]));
}

#[test]
fn first_unusable_name_fails_the_plan() {
    let config = MirrorConfiguration::new("songs".to_string());
    assert_eq!(
        plan_mirror(&strings(&["w/p/SongA", "w/p/", "w/..", "w/p/SongB"]), &config),
        Err(invalid("w/p/"))
    );
}

#[test]
fn copy_walk_starts_with_the_job() {
    let mut walk = CopyWalk::new(job("w/p/SongA", "songs/SongA"));
    assert_eq!(walk.next_dir(), Some(job("w/p/SongA", "songs/SongA")));
    assert_eq!(walk.next_dir(), None);
}

#[test]
fn copy_walk_keeps_names_in_the_target() {
    let mut walk = CopyWalk::new(job("w/p/SongA", "songs/SongA"));
    let dir = walk.next_dir().unwrap();
    let copies = walk.visit(
        &dir,
        &vec![entry("chart.sm", false), entry("bg", true), entry("chart - Hard.osu", false)],
    );
    assert_eq!(
        copies,
        vec![
            CopyFile { from: "w/p/SongA/chart.sm".to_string(), to: "songs/SongA/chart.sm".to_string() },
            CopyFile {
                from: "w/p/SongA/chart - Hard.osu".to_string(),
                to: "songs/SongA/chart - Hard.osu".to_string()
            },
        ]
    );
    assert_eq!(walk.pending, vec![job("w/p/SongA/bg", "songs/SongA/bg")]);
    let sub = walk.next_dir().unwrap();
    let copies = walk.visit(&sub, &vec![entry("a.png", false)]);
    assert_eq!(
        copies,
        vec![CopyFile { from: "w/p/SongA/bg/a.png".to_string(), to: "songs/SongA/bg/a.png".to_string() }]
    );
    assert_eq!(walk.next_dir(), None);
}

#[test]
fn copy_of_an_empty_directory_copies_nothing() {
    let mut walk = CopyWalk::new(job("a", "b"));
    let dir = walk.next_dir().unwrap();
    assert_eq!(walk.visit(&dir, &Vec::new()), Vec::<CopyFile>::new());
    assert!(walk.pending.is_empty());
}

#[test]
fn job_removes_the_target_before_it_copies() {
    assert_eq!(
        job("w/p/SongA", "songs/SongA").steps(),
        vec![
            MirrorStep::RemoveTree { target: "songs/SongA".to_string() },
            MirrorStep::CopyTree { from: "w/p/SongA".to_string(), to: "songs/SongA".to_string() },
        ]
    );
}

fn carry_out(files: &mut BTreeSet<String>, steps: Vec<MirrorStep>) {
    for step in steps {
        match step {
            MirrorStep::CreateRoot { .. } => {}
            MirrorStep::RemoveTree { target } => {
                let prefix = format!("{}/", target);
                files.retain(|p| !p.starts_with(&prefix));
            }
            MirrorStep::CopyTree { from, to } => {
                let prefix = format!("{}/", from);
                let copies: Vec<String> = files
                    .iter()
                    .filter(|p| p.starts_with(&prefix))
                    .map(|p| format!("{}/{}", to, &p[prefix.len()..]))
                    .collect();
                files.extend(copies);
            }
        }
    }
}

#[test]
fn mirroring_twice_leaves_no_stale_file() {
    let mut files: BTreeSet<String> = ["w/SongA/old.sm", "w/SongA/bg/a.png", "songs/Other/x.sm"]
        .iter()
        .map(|s| s.to_string())
        .collect();
    let the_job = mirror_job("songs", "w/SongA").unwrap();
    carry_out(&mut files, the_job.steps());
    assert!(files.contains("songs/SongA/old.sm"));
    files.remove("w/SongA/old.sm");
    files.insert("w/SongA/new.sm".to_string());
    carry_out(&mut files, the_job.steps());
    let mirrored: Vec<&str> =
        files.iter().filter(|p| p.starts_with("songs/SongA/")).map(|p| p.as_str()).collect();
    assert_eq!(mirrored, vec!["songs/SongA/bg/a.png", "songs/SongA/new.sm"]);
    assert!(files.contains("songs/Other/x.sm"));
}

#[test]
fn directory_that_stands_at_its_target_is_refused() {
    assert_eq!(mirror_job("songs", "songs/SongA"), Err(invalid("songs/SongA")));
    assert_eq!(mirror_job("", "SongA"), Err(invalid("SongA")));
    assert_eq!(mirror_job("songs", "songs/x/SongA"), Ok(job("songs/x/SongA", "songs/SongA")));
}

#[test]
fn steps_create_the_root_then_replace_each_directory() {
    let config = MirrorConfiguration::new("songs".to_string());
    assert_eq!(
        plan_steps(&strings(&["w/A", "w/B"]), &config),
        Ok(vec![
            MirrorStep::CreateRoot { root: "songs".to_string() },
            MirrorStep::RemoveTree { target: "songs/A".to_string() },
            MirrorStep::CopyTree { from: "w/A".to_string(), to: "songs/A".to_string() },
            MirrorStep::RemoveTree { target: "songs/B".to_string() },
            MirrorStep::CopyTree { from: "w/B".to_string(), to: "songs/B".to_string() },
        ])
    );
    assert_eq!(
        plan_steps(&Vec::new(), &config),
        Ok(vec![MirrorStep::CreateRoot { root: "songs".to_string() }])
    );
    assert_eq!(plan_steps(&strings(&["w/A"]), &MirrorConfiguration::new(String::new())), Ok(vec![]));
    assert_eq!(plan_steps(&strings(&["w/A", "w/"]), &config), Err(invalid("w/")));
}

#[test]
fn root_that_cannot_be_created_is_a_configuration_error() {
    assert_eq!(
        step_failure(&MirrorStep::CreateRoot { root: "songs".to_string() }, "read-only".to_string()),
        PipelineError::ConfigError("read-only".to_string())
    );
    assert_eq!(
        step_failure(&MirrorStep::RemoveTree { target: "songs/A".to_string() }, "busy".to_string()),
        PipelineError::IoError("songs/A".to_string(), "busy".to_string())
    );
    assert_eq!(
        step_failure(
            &MirrorStep::CopyTree { from: "w/A".to_string(), to: "songs/A".to_string() },
            "full".to_string()
        ),
        PipelineError::IoError("w/A".to_string(), "full".to_string())
    );
}

#[test]
fn mirroring_a_list_leaves_the_rest_of_the_destination() {
    let mut files: BTreeSet<String> =
        ["w/A/a.sm", "w/B/b.sm", "songs/Old/x.sm", "songs/A/stale.sm", "other/y"]
            .iter()
            .map(|s| s.to_string())
            .collect();
    let config = MirrorConfiguration::new("songs".to_string());
    carry_out(&mut files, plan_steps(&strings(&["w/A", "w/B"]), &config).unwrap());
    let now: Vec<&str> = files.iter().map(|p| p.as_str()).collect();
    assert_eq!(
        now,
        vec!["other/y", "songs/A/a.sm", "songs/B/b.sm", "songs/Old/x.sm", "w/A/a.sm", "w/B/b.sm"]
    );
}
