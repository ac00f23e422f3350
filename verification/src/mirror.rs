//! Mirroring song directories into the configured destination.
//!
//! A song directory that is already at the destination is replaced, never
//! merged: its copy there is removed before the directory is copied again.

use crate::error::{ErrorModel, PipelineError};
use crate::paths::{file_name, file_name_of, join, join_path};
use crate::text::same_text;
use crate::walk::{lemma_in_concat, lemma_in_front_or_last, lemma_in_push, DirEntry};
use vstd::prelude::*;

verus! {

/// Where song directories are mirrored to. An empty root switches
/// mirroring off.
#[derive(Debug, Clone, PartialEq, Eq)]
pub struct MirrorConfiguration {
    pub destination_root: String,
}

impl MirrorConfiguration {
    /// The configuration for a song path as the settings hold it.
    pub fn new(song_path: String) -> (r: Self)
        ensures
            r.destination_root == song_path,
    {
        MirrorConfiguration { destination_root: song_path }
    }

    /// Whether a destination is configured.
    pub fn is_set(&self) -> (r: bool)
        ensures
            r == (self.destination_root@.len() > 0),
    {
        !self.destination_root.as_str().is_empty()
    }
}

/// A directory to copy and the place that its copy takes.
#[derive(Debug, Clone, PartialEq, Eq)]
pub struct MirrorJob {
    pub source: String,
    pub target: String,
}

/// Whether a name can be that of a mirrored directory: not empty, and
/// neither of the two names that stand for a directory itself and for its
/// parent.
pub open spec fn is_leaf_name(name: Seq<char>) -> bool {
    name.len() > 0 && name != "."@ && name != ".."@
}

/// The place below `root` that the copy of `dir` takes: named like `dir`.
/// A directory without a usable name has none, nor has one that stands at
/// that place already: to replace it by itself would remove it.
pub open spec fn mirror_target(root: Seq<char>, dir: Seq<char>) -> Option<Seq<char>> {
    if is_leaf_name(file_name(dir)) && join(root, file_name(dir)) != dir {
        Some(join(root, file_name(dir)))
    } else {
        None
    }
}

/// The cause reported for a song directory without a usable name.
pub open spec fn invalid_name_text() -> Seq<char> {
    "Invalid directory name"@
}

/// The jobs that mirror `dirs` below `root`, in their order, or the error
/// for the first directory without a usable name.
pub open spec fn mirror_jobs(root: Seq<char>, dirs: Seq<Seq<char>>) -> Result<
    Seq<(Seq<char>, Seq<char>)>,
    ErrorModel,
>
    decreases dirs.len(),
{
    if dirs.len() == 0 {
        Ok(seq![])
    } else {
        match mirror_jobs(root, dirs.drop_last()) {
            Err(e) => Err(e),
            Ok(jobs) => match mirror_target(root, dirs.last()) {
                None => Err(ErrorModel::Io(dirs.last(), invalid_name_text())),
                Some(target) => Ok(jobs.push((dirs.last(), target))),
            },
        }
    }
}

/// What mirroring does for `dirs` with the destination `root`: nothing
/// where no destination is configured.
pub open spec fn mirror_plan(root: Seq<char>, dirs: Seq<Seq<char>>) -> Result<
    Seq<(Seq<char>, Seq<char>)>,
    ErrorModel,
> {
    if root.len() == 0 {
        Ok(seq![])
    } else {
        mirror_jobs(root, dirs)
    }
}

/// The model of a list of jobs.
pub open spec fn jobs_model(jobs: Seq<MirrorJob>) -> Seq<(Seq<char>, Seq<char>)> {
    Seq::new(jobs.len(), |i: int| (jobs[i].source@, jobs[i].target@))
}

/// The model of a plan or of its refusal.
pub open spec fn plan_model(r: Result<Vec<MirrorJob>, PipelineError>) -> Result<
    Seq<(Seq<char>, Seq<char>)>,
    ErrorModel,
> {
    match r {
        Ok(jobs) => Ok(jobs_model(jobs@)),
        Err(e) => Err(e@),
    }
}

/// The job that mirrors one song directory below `root`.
pub fn mirror_job(root: &str, dir: &str) -> (r: Result<MirrorJob, PipelineError>)
    ensures
        match r {
            Ok(job) => job.source@ == dir@ && mirror_target(root@, dir@) == Some(job.target@),
            Err(e) => mirror_target(root@, dir@) is None && e@ == ErrorModel::Io(
                dir@,
                invalid_name_text(),
            ),
        },
{
    let leaf = file_name_of(dir);
    if leaf.as_str().is_empty() || same_text(leaf.as_str(), ".") || same_text(
        leaf.as_str(),
        "..",
    ) {
        Err(PipelineError::IoError(dir.to_owned(), "Invalid directory name".to_owned()))
    } else {
        let target = join_path(root, leaf.as_str());
        if same_text(target.as_str(), dir) {
            Err(PipelineError::IoError(dir.to_owned(), "Invalid directory name".to_owned()))
        } else {
            Ok(MirrorJob { source: dir.to_owned(), target })
        }
    }
}

/// Plans the mirror stage: one job for each song directory, in their
/// order. Without a destination there is nothing to do. A directory
/// without a usable name fails the stage.
pub fn plan_mirror(song_dirs: &Vec<String>, config: &MirrorConfiguration) -> (r: Result<
    Vec<MirrorJob>,
    PipelineError,
>)
    ensures
        plan_model(r) == mirror_plan(config.destination_root@, crate::text::texts(song_dirs@)),
        config.destination_root@.len() == 0 ==> r is Ok && r->Ok_0@.len() == 0,
        r is Ok && config.destination_root@.len() > 0 ==> r->Ok_0@.len() == song_dirs@.len(),
{
    let mut jobs: Vec<MirrorJob> = Vec::new();
    if !config.is_set() {
        assert(jobs_model(jobs@) =~= seq![]);
        return Ok(jobs);
    }
    let root = config.destination_root.as_str();
    let ghost all = crate::text::texts(song_dirs@);
    let mut i: usize = 0;
    assert(jobs_model(jobs@) =~= seq![]);
    while i < song_dirs.len()
        invariant
            i <= song_dirs.len(),
            all == crate::text::texts(song_dirs@),
            root@ == config.destination_root@,
            root@.len() > 0,
            jobs@.len() == i,
            mirror_jobs(root@, all.take(i as int)) == Ok::<
                Seq<(Seq<char>, Seq<char>)>,
                ErrorModel,
            >(jobs_model(jobs@)),
        decreases song_dirs.len() - i,
    {
        proof {
            assert(all.take(i + 1).drop_last() =~= all.take(i as int));
            assert(all.take(i + 1).last() == song_dirs@[i as int]@);
        }
        match mirror_job(root, song_dirs[i].as_str()) {
            Err(e) => {
                proof {
                    let upto = all.take(i + 1);
                    assert(mirror_jobs(root@, upto.drop_last()) is Ok);
                    assert(mirror_target(root@, upto.last()) is None);
                    assert(mirror_jobs(root@, upto) == Err::<
                        Seq<(Seq<char>, Seq<char>)>,
                        ErrorModel,
                    >(e@));
                    lemma_mirror_jobs_fail(root@, all, i + 1);
                }
                return Err(e);
            },
            Ok(job) => {
                let ghost before = jobs_model(jobs@);
                jobs.push(job);
                assert(jobs_model(jobs@) =~= before.push((job.source@, job.target@)));
            },
        }
        i += 1;
    }
    proof {
        assert(all.take(i as int) =~= all);
    }
    Ok(jobs)
}

/// A plan that fails for the first `n` directories fails with the same
/// error for all of them.
proof fn lemma_mirror_jobs_fail(root: Seq<char>, dirs: Seq<Seq<char>>, n: int)
    requires
        0 <= n <= dirs.len(),
        mirror_jobs(root, dirs.take(n)) is Err,
    ensures
        mirror_jobs(root, dirs) == mirror_jobs(root, dirs.take(n)),
    decreases dirs.len() - n,
{
    if n < dirs.len() {
        assert(dirs.take(n + 1).drop_last() =~= dirs.take(n));
        lemma_mirror_jobs_fail(root, dirs, n + 1);
    } else {
        assert(dirs.take(n) =~= dirs);
    }
}

/// The path of `rel` below the directory `dir`.
pub open spec fn below(dir: Seq<char>, rel: Seq<char>) -> Seq<char> {
    dir + seq!['/'] + rel
}

/// Whether a path lies inside the directory `dir`.
pub open spec fn inside(dir: Seq<char>, path: Seq<char>) -> bool {
    exists|rel: Seq<char>| rel.len() > 0 && path == #[trigger] below(dir, rel)
}

/// The files that are left when the directory `dir` is removed with all
/// that it holds.
pub open spec fn cleared(files: Set<Seq<char>>, dir: Seq<char>) -> Set<Seq<char>> {
    Set::new(|p: Seq<char>| files.contains(p) && !inside(dir, p))
}

/// The files that there are when every file inside `from` has been copied
/// to the same place inside `to`.
pub open spec fn copied(files: Set<Seq<char>>, from: Seq<char>, to: Seq<char>) -> Set<Seq<char>> {
    Set::new(
        |p: Seq<char>|
            files.contains(p) || exists|rel: Seq<char>|
                rel.len() > 0 && p == #[trigger] below(to, rel) && files.contains(below(from, rel)),
    )
}

/// The files that there are when a job has been carried out: the target is
/// removed, then the source is copied to it.
pub open spec fn mirrored(files: Set<Seq<char>>, source: Seq<char>, target: Seq<char>) -> Set<
    Seq<char>,
> {
    copied(cleared(files, target), source, target)
}

/// One step of a job.
#[derive(Debug, Clone, PartialEq, Eq)]
pub enum MirrorStep {
    /// Create the destination root, with its parents, if it is missing.
    CreateRoot { root: String },
    /// Remove the directory with all that it holds, if it is there.
    RemoveTree { target: String },
    /// Copy the directory `from`, with all that it holds, to `to`.
    CopyTree { from: String, to: String },
}

/// The model of a step.
pub enum StepModel {
    CreateRoot { root: Seq<char> },
    RemoveTree { target: Seq<char> },
    CopyTree { from: Seq<char>, to: Seq<char> },
}

impl View for MirrorStep {
    type V = StepModel;

    open spec fn view(&self) -> StepModel {
        match *self {
            MirrorStep::CreateRoot { root } => StepModel::CreateRoot { root: root@ },
            MirrorStep::RemoveTree { target } => StepModel::RemoveTree { target: target@ },
            MirrorStep::CopyTree { from, to } => StepModel::CopyTree { from: from@, to: to@ },
        }
    }
}

/// The model of a list of steps.
pub open spec fn steps_model(steps: Seq<MirrorStep>) -> Seq<StepModel> {
    Seq::new(steps.len(), |i: int| steps[i]@)
}

/// The steps of a job: the target is removed first, then the source is
/// copied to it.
pub open spec fn job_steps(source: Seq<char>, target: Seq<char>) -> Seq<StepModel> {
    seq![StepModel::RemoveTree { target }, StepModel::CopyTree { from: source, to: target }]
}

/// The files that there are after a step. Creating a directory adds no
/// file.
pub open spec fn step_effect(files: Set<Seq<char>>, step: StepModel) -> Set<Seq<char>> {
    match step {
        StepModel::CreateRoot { .. } => files,
        StepModel::RemoveTree { target } => cleared(files, target),
        StepModel::CopyTree { from, to } => copied(files, from, to),
    }
}

/// The files that there are after some steps, carried out in order.
pub open spec fn steps_effect(files: Set<Seq<char>>, steps: Seq<StepModel>) -> Set<Seq<char>>
    decreases steps.len(),
{
    if steps.len() == 0 {
        files
    } else {
        step_effect(steps_effect(files, steps.drop_last()), steps.last())
    }
}

impl MirrorJob {
    /// The steps that carry the job out, in order.
    pub fn steps(&self) -> (r: Vec<MirrorStep>)
        ensures
            steps_model(r@) == job_steps(self.source@, self.target@),
    {
        let mut out: Vec<MirrorStep> = Vec::new();
        out.push(MirrorStep::RemoveTree { target: self.target.clone() });
        out.push(MirrorStep::CopyTree { from: self.source.clone(), to: self.target.clone() });
        assert(steps_model(out@) =~= job_steps(self.source@, self.target@));
        out
    }
}

/// The steps of a job leave the files of `mirrored`.
pub proof fn lemma_job_effect(files: Set<Seq<char>>, source: Seq<char>, target: Seq<char>)
    ensures
        steps_effect(files, job_steps(source, target)) == mirrored(files, source, target),
{
    let steps = job_steps(source, target);
    let first = steps.drop_last();
    assert(first.len() == 1);
    assert(first.drop_last().len() == 0);
    assert(first.last() == StepModel::RemoveTree { target });
    assert(steps_effect(files, first.drop_last()) == files);
    assert(steps_effect(files, first) == cleared(files, target));
    assert(steps.last() == StepModel::CopyTree { from: source, to: target });
}

/// The steps of some jobs, job after job.
pub open spec fn jobs_steps(jobs: Seq<(Seq<char>, Seq<char>)>) -> Seq<StepModel>
    decreases jobs.len(),
{
    if jobs.len() == 0 {
        seq![]
    } else {
        jobs_steps(jobs.drop_last()) + job_steps(jobs.last().0, jobs.last().1)
    }
}

/// The steps of the mirror stage for `dirs` with the destination `root`:
/// none where no destination is configured; else the root is created,
/// then each directory is replaced in turn. A directory without a place
/// fails the plan before any step.
pub open spec fn mirror_steps(root: Seq<char>, dirs: Seq<Seq<char>>) -> Result<
    Seq<StepModel>,
    ErrorModel,
> {
    if root.len() == 0 {
        Ok(seq![])
    } else {
        match mirror_jobs(root, dirs) {
            Err(e) => Err(e),
            Ok(jobs) => Ok(seq![StepModel::CreateRoot { root }] + jobs_steps(jobs)),
        }
    }
}

/// The error of a step that failed for `cause`: a root that cannot be
/// created is a fault of the configuration, anything else one of the
/// filesystem at the path that the step worked on.
pub open spec fn step_error(step: StepModel, cause: Seq<char>) -> ErrorModel {
    match step {
        StepModel::CreateRoot { .. } => ErrorModel::Config(cause),
        StepModel::RemoveTree { target } => ErrorModel::Io(target, cause),
        StepModel::CopyTree { from, .. } => ErrorModel::Io(from, cause),
    }
}

/// Names the error of a step that failed.
pub fn step_failure(step: &MirrorStep, cause: String) -> (r: PipelineError)
    ensures
        r@ == step_error(step@, cause@),
{
    match step {
        MirrorStep::CreateRoot { .. } => PipelineError::ConfigError(cause),
        MirrorStep::RemoveTree { target } => PipelineError::IoError(target.clone(), cause),
        MirrorStep::CopyTree { from, .. } => PipelineError::IoError(from.clone(), cause),
    }
}

/// Plans the mirror stage as the steps to carry out, in order.
pub fn plan_steps(song_dirs: &Vec<String>, config: &MirrorConfiguration) -> (r: Result<
    Vec<MirrorStep>,
    PipelineError,
>)
    ensures
        match r {
            Ok(steps) => mirror_steps(config.destination_root@, crate::text::texts(song_dirs@))
                == Ok::<Seq<StepModel>, ErrorModel>(steps_model(steps@)),
            Err(e) => mirror_steps(config.destination_root@, crate::text::texts(song_dirs@))
                == Err::<Seq<StepModel>, ErrorModel>(e@),
        },
{
    let mut steps: Vec<MirrorStep> = Vec::new();
    if !config.is_set() {
        assert(steps_model(steps@) =~= seq![]);
        return Ok(steps);
    }
    let jobs = match plan_mirror(song_dirs, config) {
        Ok(jobs) => jobs,
        Err(e) => {
            return Err(e);
        },
    };
    steps.push(MirrorStep::CreateRoot { root: config.destination_root.clone() });
    let ghost root = config.destination_root@;
    let ghost all = jobs_model(jobs@);
    let mut i: usize = 0;
    assert(steps_model(steps@) =~= seq![StepModel::CreateRoot { root }] + jobs_steps(
        all.take(0),
    ));
    while i < jobs.len()
        invariant
            i <= jobs.len(),
            all == jobs_model(jobs@),
            steps_model(steps@) == seq![StepModel::CreateRoot { root }] + jobs_steps(
                all.take(i as int),
            ),
        decreases jobs.len() - i,
    {
        let ghost before = steps_model(steps@);
        let mut more = jobs[i].steps();
        let ghost added = steps_model(more@);
        steps.append(&mut more);
        proof {
            assert(all.take(i + 1).drop_last() =~= all.take(i as int));
            assert(all.take(i + 1).last() == (jobs@[i as int].source@, jobs@[i as int].target@));
            assert(steps_model(steps@) =~= before + added);
            assert(before + added =~= seq![StepModel::CreateRoot { root }] + jobs_steps(
                all.take(i + 1),
            ));
        }
        i += 1;
    }
    proof {
        assert(all.take(i as int) =~= all);
    }
    Ok(steps)
}

/// The steps of a job change nothing outside its target.
pub proof fn lemma_job_keeps_outside(
    files: Set<Seq<char>>,
    source: Seq<char>,
    target: Seq<char>,
    p: Seq<char>,
)
    requires
        !inside(target, p),
    ensures
        steps_effect(files, job_steps(source, target)).contains(p) <==> files.contains(p),
{
    lemma_job_effect(files, source, target);
    let kept = cleared(files, target);
    let after = mirrored(files, source, target);
    if after.contains(p) && !kept.contains(p) {
        let r2 = choose|r2: Seq<char>|
            r2.len() > 0 && p == #[trigger] below(target, r2) && kept.contains(below(source, r2));
        assert(inside(target, p));
    }
}

/// Steps carried out one list after the other have the effect of the
/// second list on what the first left.
pub proof fn lemma_steps_effect_concat(files: Set<Seq<char>>, a: Seq<StepModel>, b: Seq<StepModel>)
    ensures
        steps_effect(files, a + b) == steps_effect(steps_effect(files, a), b),
    decreases b.len(),
{
    if b.len() == 0 {
        assert(a + b =~= a);
    } else {
        lemma_steps_effect_concat(files, a, b.drop_last());
        assert((a + b).drop_last() =~= a + b.drop_last());
        assert((a + b).last() == b.last());
    }
}

/// The steps of a list of jobs change nothing that lies outside the
/// target of every job: the rest of the destination is as it was.
pub proof fn lemma_jobs_keep_outside(
    files: Set<Seq<char>>,
    root: Seq<char>,
    jobs: Seq<(Seq<char>, Seq<char>)>,
    p: Seq<char>,
)
    requires
        forall|i: int| 0 <= i < jobs.len() ==> !inside((#[trigger] jobs[i]).1, p),
    ensures
        steps_effect(files, jobs_steps(jobs)).contains(p) <==> files.contains(p),
        steps_effect(files, seq![StepModel::CreateRoot { root }] + jobs_steps(jobs)).contains(p)
            <==> files.contains(p),
    decreases jobs.len(),
{
    if jobs.len() > 0 {
        let front = jobs.drop_last();
        assert forall|i: int| 0 <= i < front.len() implies !inside((#[trigger] front[i]).1, p) by {
            assert(front[i] == jobs[i]);
        }
        lemma_jobs_keep_outside(files, root, front, p);
        let mid = steps_effect(files, jobs_steps(front));
        lemma_steps_effect_concat(files, jobs_steps(front), job_steps(jobs.last().0, jobs.last().1));
        assert(!inside(jobs[jobs.len() - 1].1, p));
        lemma_job_keeps_outside(mid, jobs.last().0, jobs.last().1, p);
    }
    let first = seq![StepModel::CreateRoot { root }];
    lemma_steps_effect_concat(files, first, jobs_steps(jobs));
    assert(first.drop_last().len() == 0);
    assert(steps_effect(files, first.drop_last()) == files);
    assert(first.last() == StepModel::CreateRoot { root });
    assert(steps_effect(files, first) == step_effect(files, first.last()));
}

/// A place below a directory is the place of one relative path only.
pub proof fn lemma_below_injective(dir: Seq<char>, a: Seq<char>, b: Seq<char>)
    requires
        below(dir, a) == below(dir, b),
    ensures
        a == b,
{
    let n = dir.len() + 1;
    assert(below(dir, a).len() == n + a.len());
    assert(below(dir, b).len() == n + b.len());
    assert forall|i: int| 0 <= i < a.len() implies a[i] == b[i] by {
        assert(below(dir, a)[n + i] == a[i]);
        assert(below(dir, b)[n + i] == b[i]);
    }
    assert(a =~= b);
}

/// After the steps of a job, the target holds exactly the files of the
/// source, each at the same place, and nothing that it held before; what
/// lies outside the target is as it was. The source must not lie inside the
/// target.
pub proof fn lemma_mirror_replaces(files: Set<Seq<char>>, source: Seq<char>, target: Seq<char>)
    requires
        forall|rel: Seq<char>| !inside(target, #[trigger] below(source, rel)),
    ensures
        forall|rel: Seq<char>|
            rel.len() > 0 ==> (steps_effect(files, job_steps(source, target)).contains(
                #[trigger] below(target, rel),
            ) <==> files.contains(below(source, rel))),
        forall|p: Seq<char>|
            !inside(target, p) ==> (#[trigger] steps_effect(
                files,
                job_steps(source, target),
            ).contains(p) <==> files.contains(p)),
{
    lemma_job_effect(files, source, target);
    let kept = cleared(files, target);
    let after = mirrored(files, source, target);
    assert forall|rel: Seq<char>| rel.len() > 0 implies (after.contains(
        #[trigger] below(target, rel),
    ) <==> files.contains(below(source, rel))) by {
        let p = below(target, rel);
        assert(inside(target, p));
        assert(!kept.contains(p));
        if files.contains(below(source, rel)) {
            assert(!inside(target, below(source, rel)));
            assert(kept.contains(below(source, rel)));
            assert(after.contains(p));
        }
        if after.contains(p) {
            let r2 = choose|r2: Seq<char>|
                r2.len() > 0 && p == #[trigger] below(target, r2) && kept.contains(
                    below(source, r2),
                );
            lemma_below_injective(target, rel, r2);
        }
    }
    assert forall|p: Seq<char>| !inside(target, p) implies (#[trigger] after.contains(p)
        <==> files.contains(p)) by {
        if after.contains(p) && !kept.contains(p) {
            let r2 = choose|r2: Seq<char>|
                r2.len() > 0 && p == #[trigger] below(target, r2) && kept.contains(
                    below(source, r2),
                );
            assert(inside(target, p));
        }
    }
}

/// The directories still to copy, with the place of each copy.
#[derive(Debug, Clone, PartialEq, Eq)]
pub struct CopyWalk {
    pub pending: Vec<MirrorJob>,
}

/// A file to copy and the place of its copy.
#[derive(Debug, Clone, PartialEq, Eq)]
pub struct CopyFile {
    pub from: String,
    pub to: String,
}

/// The model of a list of files to copy.
pub open spec fn copies_model(copies: Seq<CopyFile>) -> Seq<(Seq<char>, Seq<char>)> {
    Seq::new(copies.len(), |i: int| (copies[i].from@, copies[i].to@))
}

/// The entries of a listing that are directories (`dirs`), or those that
/// are not, each as its path inside `from` and the path of the same name
/// inside `to`.
pub open spec fn paired(from: Seq<char>, to: Seq<char>, entries: Seq<DirEntry>, dirs: bool) -> Seq<
    (Seq<char>, Seq<char>),
>
    decreases entries.len(),
{
    if entries.len() == 0 {
        seq![]
    } else {
        let rest = paired(from, to, entries.drop_last(), dirs);
        if entries.last().is_dir == dirs {
            rest.push((join(from, entries.last().name@), join(to, entries.last().name@)))
        } else {
            rest
        }
    }
}

impl CopyWalk {
    /// The walk that carries out the copy of a job.
    pub fn new(job: MirrorJob) -> (r: Self)
        ensures
            r.pending@ == seq![job],
    {
        let mut pending: Vec<MirrorJob> = Vec::new();
        pending.push(job);
        CopyWalk { pending }
    }

    /// Takes the directory to copy next, `None` when all are copied. The
    /// caller creates its target and lists its source.
    pub fn next_dir(&mut self) -> (r: Option<MirrorJob>)
        ensures
            old(self).pending@.len() == 0 ==> r is None,
            old(self).pending@.len() == 0 ==> final(self).pending@ == old(self).pending@,
            old(self).pending@.len() > 0 ==> r == Some(old(self).pending@.last()),
            old(self).pending@.len() > 0 ==> final(self).pending@ == old(self).pending@.drop_last(),
    {
        self.pending.pop()
    }

    /// Takes in the listing of the source of `dir`. Its directories are to
    /// be copied to the directory of the same name in the target; its other
    /// entries are the files to copy now, each to the same name in the
    /// target.
    pub fn visit(&mut self, dir: &MirrorJob, entries: &Vec<DirEntry>) -> (r: Vec<CopyFile>)
        ensures
            jobs_model(final(self).pending@) == jobs_model(old(self).pending@) + paired(
                dir.source@,
                dir.target@,
                entries@,
                true,
            ),
            copies_model(r@) == paired(dir.source@, dir.target@, entries@, false),
    {
        let mut copies: Vec<CopyFile> = Vec::new();
        let mut i: usize = 0;
        assert(copies_model(copies@) =~= seq![]);
        assert(jobs_model(self.pending@) =~= jobs_model(old(self).pending@) + seq![]);
        while i < entries.len()
            invariant
                i <= entries.len(),
                jobs_model(self.pending@) == jobs_model(old(self).pending@) + paired(
                    dir.source@,
                    dir.target@,
                    entries@.take(i as int),
                    true,
                ),
                copies_model(copies@) == paired(
                    dir.source@,
                    dir.target@,
                    entries@.take(i as int),
                    false,
                ),
            decreases entries.len() - i,
        {
            let name = entries[i].name.as_str();
            let from = join_path(dir.source.as_str(), name);
            let to = join_path(dir.target.as_str(), name);
            proof {
                assert(entries@.take(i + 1).drop_last() =~= entries@.take(i as int));
                assert(entries@.take(i + 1).last() == entries@[i as int]);
            }
            if entries[i].is_dir {
                let ghost before = jobs_model(self.pending@);
                self.pending.push(MirrorJob { source: from, target: to });
                assert(jobs_model(self.pending@) =~= before.push((from@, to@)));
            } else {
                let ghost before = copies_model(copies@);
                copies.push(CopyFile { from, to });
                assert(copies_model(copies@) =~= before.push((from@, to@)));
            }
            i += 1;
        }
        proof {
            assert(entries@.take(i as int) =~= entries@);
        }
        copies
    }
}

/// The state of a copy as plain values: the directories still to copy,
/// the files copied, and the directories read so far, each with its place
/// in the target.
pub struct CopyModel {
    pub pending: Seq<(Seq<char>, Seq<char>)>,
    pub copies: Seq<(Seq<char>, Seq<char>)>,
    pub read: Seq<(Seq<char>, Seq<char>)>,
}

impl CopyWalk {
    /// The copy as plain values, beside the files that it has copied and
    /// the directories that it has read.
    pub open spec fn model(
        self,
        copies: Seq<(Seq<char>, Seq<char>)>,
        read: Seq<(Seq<char>, Seq<char>)>,
    ) -> CopyModel {
        CopyModel { pending: jobs_model(self.pending@), copies, read }
    }
}

/// Whether `child` is an entry of the source of `dir` in the tree `tree`,
/// with its place in the target of `dir`: a directory (`dirs`), or not.
pub open spec fn is_pair_child(
    tree: spec_fn(Seq<char>) -> Seq<DirEntry>,
    dir: (Seq<char>, Seq<char>),
    child: (Seq<char>, Seq<char>),
    dirs: bool,
) -> bool {
    paired(dir.0, dir.1, tree(dir.0), dirs).contains(child)
}

/// Whether the directory `dir`, with its place in the target, lies `depth`
/// levels below `root`.
pub open spec fn pair_lies_below(
    tree: spec_fn(Seq<char>) -> Seq<DirEntry>,
    root: (Seq<char>, Seq<char>),
    dir: (Seq<char>, Seq<char>),
    depth: nat,
) -> bool
    decreases depth,
{
    if depth == 0 {
        dir == root
    } else {
        exists|p: (Seq<char>, Seq<char>)|
            pair_lies_below(tree, root, p, (depth - 1) as nat) && #[trigger] is_pair_child(
                tree,
                p,
                dir,
                true,
            )
    }
}

/// One round of a copy: the directory found last is taken and read, its
/// directories are to be copied, its other entries are copied.
pub open spec fn copy_step(tree: spec_fn(Seq<char>) -> Seq<DirEntry>, w: CopyModel) -> CopyModel {
    if w.pending.len() == 0 {
        w
    } else {
        let dir = w.pending.last();
        CopyModel {
            pending: w.pending.drop_last() + paired(dir.0, dir.1, tree(dir.0), true),
            copies: w.copies + paired(dir.0, dir.1, tree(dir.0), false),
            read: w.read.push(dir),
        }
    }
}

/// The copy of `source` to `target` after `rounds` rounds.
pub open spec fn copy_after(
    tree: spec_fn(Seq<char>) -> Seq<DirEntry>,
    root: (Seq<char>, Seq<char>),
    rounds: nat,
) -> CopyModel
    decreases rounds,
{
    if rounds == 0 {
        CopyModel { pending: seq![root], copies: seq![], read: seq![] }
    } else {
        copy_step(tree, copy_after(tree, root, (rounds - 1) as nat))
    }
}

/// Taking the next directory and taking in its listing is one round: where
/// `taken` is the copy `before` after `next_dir`, and `after` is `taken`
/// after `visit` with the listing that the tree has for the source of that
/// directory, which gave the files `copied`.
pub proof fn lemma_copy_round_is_step(
    tree: spec_fn(Seq<char>) -> Seq<DirEntry>,
    before: CopyWalk,
    taken: CopyWalk,
    after: CopyWalk,
    copied: Seq<CopyFile>,
    copies: Seq<(Seq<char>, Seq<char>)>,
    read: Seq<(Seq<char>, Seq<char>)>,
)
    requires
        before.pending@.len() > 0,
        taken.pending@ == before.pending@.drop_last(),
        jobs_model(after.pending@) == jobs_model(taken.pending@) + paired(
            before.pending@.last().source@,
            before.pending@.last().target@,
            tree(before.pending@.last().source@),
            true,
        ),
        copies_model(copied) == paired(
            before.pending@.last().source@,
            before.pending@.last().target@,
            tree(before.pending@.last().source@),
            false,
        ),
    ensures
        after.model(
            copies + copies_model(copied),
            read.push((before.pending@.last().source@, before.pending@.last().target@)),
        ) == copy_step(tree, before.model(copies, read)),
{
    assert(jobs_model(before.pending@).drop_last() =~= jobs_model(taken.pending@));
    assert(jobs_model(before.pending@).last() == (
        before.pending@.last().source@,
        before.pending@.last().target@,
    ));
}

/// What holds of a copy at every round: the root is read or to be read,
/// and so is every directory of a directory that was read; every file of
/// a directory that was read is copied.
pub open spec fn copy_inv(
    tree: spec_fn(Seq<char>) -> Seq<DirEntry>,
    root: (Seq<char>, Seq<char>),
    w: CopyModel,
) -> bool {
    &&& w.pending.contains(root) || w.read.contains(root)
    &&& forall|d: (Seq<char>, Seq<char>), c: (Seq<char>, Seq<char>)|
        w.read.contains(d) && #[trigger] is_pair_child(tree, d, c, true) ==> w.pending.contains(c)
            || w.read.contains(c)
    &&& forall|d: (Seq<char>, Seq<char>), f: (Seq<char>, Seq<char>)|
        w.read.contains(d) && #[trigger] is_pair_child(tree, d, f, false) ==> w.copies.contains(f)
}

proof fn lemma_copy_step_keeps_inv(
    tree: spec_fn(Seq<char>) -> Seq<DirEntry>,
    root: (Seq<char>, Seq<char>),
    w: CopyModel,
)
    requires
        copy_inv(tree, root, w),
    ensures
        copy_inv(tree, root, copy_step(tree, w)),
{
    if w.pending.len() > 0 {
        let x = w.pending.last();
        let kids = paired(x.0, x.1, tree(x.0), true);
        let leaves = paired(x.0, x.1, tree(x.0), false);
        let n = copy_step(tree, w);
        assert forall|c: (Seq<char>, Seq<char>)|
            w.pending.contains(c) || w.read.contains(c) implies n.pending.contains(c)
            || n.read.contains(c) by {
            lemma_in_push(w.read, x, c);
            if w.pending.contains(c) {
                lemma_in_front_or_last(w.pending, c);
                lemma_in_concat(w.pending.drop_last(), kids, c);
            }
        }
        assert forall|d: (Seq<char>, Seq<char>), c: (Seq<char>, Seq<char>)|
            n.read.contains(d) && #[trigger] is_pair_child(
                tree,
                d,
                c,
                true,
            ) implies n.pending.contains(c) || n.read.contains(c) by {
            lemma_in_push(w.read, x, d);
            if w.read.contains(d) {
                assert(w.pending.contains(c) || w.read.contains(c));
            } else {
                lemma_in_concat(w.pending.drop_last(), kids, c);
            }
        }
        assert forall|d: (Seq<char>, Seq<char>), f: (Seq<char>, Seq<char>)|
            n.read.contains(d) && #[trigger] is_pair_child(
                tree,
                d,
                f,
                false,
            ) implies n.copies.contains(f) by {
            lemma_in_push(w.read, x, d);
            lemma_in_concat(w.copies, leaves, f);
        }
    }
}

proof fn lemma_copy_inv(
    tree: spec_fn(Seq<char>) -> Seq<DirEntry>,
    root: (Seq<char>, Seq<char>),
    rounds: nat,
)
    ensures
        copy_inv(tree, root, copy_after(tree, root, rounds)),
    decreases rounds,
{
    if rounds == 0 {
        assert(seq![root][0] == root);
    } else {
        lemma_copy_inv(tree, root, (rounds - 1) as nat);
        lemma_copy_step_keeps_inv(tree, root, copy_after(tree, root, (rounds - 1) as nat));
    }
}

/// A copy that has nothing left to read has read every directory that lies
/// below its source, at whatever depth, and has copied every file of each
/// to the same name in the place of that directory.
pub proof fn lemma_copy_copies_all(
    tree: spec_fn(Seq<char>) -> Seq<DirEntry>,
    root: (Seq<char>, Seq<char>),
    rounds: nat,
    dir: (Seq<char>, Seq<char>),
    depth: nat,
)
    requires
        copy_after(tree, root, rounds).pending.len() == 0,
        pair_lies_below(tree, root, dir, depth),
    ensures
        copy_after(tree, root, rounds).read.contains(dir),
        forall|f: (Seq<char>, Seq<char>)|
            #[trigger] is_pair_child(tree, dir, f, false) ==> copy_after(
                tree,
                root,
                rounds,
            ).copies.contains(f),
    decreases depth,
{
    let w = copy_after(tree, root, rounds);
    lemma_copy_inv(tree, root, rounds);
    assert(forall|x: (Seq<char>, Seq<char>)| !w.pending.contains(x));
    if depth > 0 {
        let p = choose|p: (Seq<char>, Seq<char>)|
            pair_lies_below(tree, root, p, (depth - 1) as nat) && #[trigger] is_pair_child(
                tree,
                p,
                dir,
                true,
            );
        lemma_copy_copies_all(tree, root, rounds, p, (depth - 1) as nat);
        assert(is_pair_child(tree, p, dir, true));
    }
}

} // verus!
