//! What a run does, said without the machine: the operations that a job
//! comes to on a given source tree. The installer is shown to hand out
//! exactly these, step by step.

use vstd::prelude::*;
use crate::installer::child_job;
use crate::installer::child_jobs;
use crate::installer::dir_jobs;
use crate::installer::dispatch;
use crate::installer::expansion;
use crate::installer::file_jobs;
use crate::installer::halted;
use crate::installer::mode_jobs;
use crate::installer::next_depth;
use crate::installer::step;
use crate::installer::visible;
use crate::installer::ActionView;
use crate::installer::InstallerView;
use crate::installer::NodeKind;
use crate::installer::ReplyView;
use crate::installer::MAX_DEPTH;
use crate::ops::FsOpView;
use crate::ops::InstallErrorView;
use crate::ops::JobView;
use crate::path::joined;
use crate::path::parent_of;
use crate::text::is_hidden_name;

verus! {

/// What the caller finds on disk, as far as the installer asks. A run is
/// described for answers that do not change while it lasts.
pub struct Disk {
    /// What lies at a path.
    pub kind: spec_fn(Seq<char>) -> NodeKind,
    /// Whether anything lies at a path.
    pub exists: spec_fn(Seq<char>) -> bool,
    /// The names of the entries of the directory at a path, as listed.
    pub entries: spec_fn(Seq<char>) -> Seq<Seq<char>>,
}

/// How a run ends.
pub enum End {
    /// Everything is done.
    Done,
    /// The run stops with an error.
    Failed(InstallErrorView),
}

/// The operations that the caller is asked to perform, in their order, and
/// how the run ends after them.
pub struct Trace {
    pub ops: Seq<FsOpView>,
    pub end: End,
}

/// The run that performs `ops` and is done.
pub open spec fn done(ops: Seq<FsOpView>) -> Trace {
    Trace { ops, end: End::Done }
}

/// The run that fails at once.
pub open spec fn failed(error: InstallErrorView) -> Trace {
    Trace { ops: Seq::empty(), end: End::Failed(error) }
}

/// One run after another: the second begins where the first is done, and
/// never begins where the first fails.
pub open spec fn followed_by(first: Trace, second: Trace) -> Trace {
    match first.end {
        End::Done => Trace { ops: first.ops + second.ops, end: second.end },
        End::Failed(_) => first,
    }
}

/// The operation that sets the permissions of `path`, where a mode is given.
pub open spec fn mode_ops(path: Seq<char>, mode: Option<u32>) -> Seq<FsOpView> {
    match mode {
        Some(mode) => seq![FsOpView::SetPermissions { path, mode }],
        None => Seq::empty(),
    }
}

/// The source that an install takes: the override path where there is one
/// and it exists, else the package's own.
pub open spec fn chosen_source(disk: Disk, alt: Option<Seq<char>>, src: Option<Seq<char>>) -> Option<
    Seq<char>,
> {
    match alt {
        Some(path) => if (disk.exists)(path) {
            Some(path)
        } else {
            src
        },
        None => src,
    }
}

/// What copying `src` to `dst` comes to, `depth` levels below where the
/// copy began.
///
/// Deeper than `MAX_DEPTH` it fails. A file is copied into the directory
/// that holds `dst`, which is made first, and gets the mode, if one is
/// given, after the copy. A directory is made, gets the mode, and then its
/// entries are copied. Anything else fails.
pub open spec fn copy_trace(
    disk: Disk,
    src: Seq<char>,
    dst: Seq<char>,
    mode: Option<u32>,
    depth: u32,
) -> Trace
    decreases
            (if depth > MAX_DEPTH {
                0
            } else {
                2 * (MAX_DEPTH - depth) + 2
            }),
            0nat,
{
    if depth > MAX_DEPTH {
        failed(InstallErrorView::RecursionLimit { path: src })
    } else {
        match (disk.kind)(src) {
            NodeKind::File => match parent_of(dst) {
                Some(dir) => done(
                    seq![
                        FsOpView::CreateDirAll { path: dir },
                        FsOpView::CopyFile { src, dst },
                    ] + mode_ops(dst, mode),
                ),
                None => failed(InstallErrorView::NoParentDirectory { path: dst }),
            },
            NodeKind::Dir => followed_by(
                done(seq![FsOpView::CreateDirAll { path: dst }] + mode_ops(dst, mode)),
                walk_trace(disk, (disk.entries)(src), src, dst, mode, depth),
            ),
            NodeKind::Other => failed(InstallErrorView::ArtifactNotFound { path: src }),
        }
    }
}

/// What copying the entries `names` of the directory `src` into the
/// directory `dst` comes to: each entry in its turn, one level deeper, but
/// for the hidden ones, which are passed over.
pub open spec fn walk_trace(
    disk: Disk,
    names: Seq<Seq<char>>,
    src: Seq<char>,
    dst: Seq<char>,
    mode: Option<u32>,
    depth: u32,
) -> Trace
    decreases
            (if depth > MAX_DEPTH {
                1
            } else {
                2 * (MAX_DEPTH - depth) + 1
            }),
            names.len(),
{
    if names.len() == 0 {
        done(Seq::empty())
    } else {
        let rest = walk_trace(disk, names.drop_first(), src, dst, mode, depth);
        if is_hidden_name(names[0]) {
            rest
        } else {
            followed_by(
                copy_trace(
                    disk,
                    joined(src, names[0]),
                    joined(dst, names[0]),
                    mode,
                    next_depth(depth),
                ),
                rest,
            )
        }
    }
}

/// What one job comes to.
pub open spec fn job_trace(disk: Disk, job: JobView) -> Trace {
    match job {
        JobView::Apply(op) => done(seq![op]),
        JobView::Fail(error) => failed(error),
        JobView::Copy { src, dst, mode, depth } => copy_trace(disk, src, dst, mode, depth),
        JobView::Walk { src, dst, mode, depth } => walk_trace(
            disk,
            (disk.entries)(src),
            src,
            dst,
            mode,
            depth,
        ),
        JobView::Install { package, alt, src, dst, mode } => match chosen_source(disk, alt, src) {
            Some(src) => copy_trace(disk, src, dst, mode, 0),
            None => failed(InstallErrorView::NoManifestDirectory { package }),
        },
    }
}

/// What a list of jobs comes to: one job after another.
pub open spec fn jobs_trace(disk: Disk, jobs: Seq<JobView>) -> Trace
    decreases jobs.len(),
{
    if jobs.len() == 0 {
        done(Seq::empty())
    } else {
        followed_by(job_trace(disk, jobs[0]), jobs_trace(disk, jobs.drop_first()))
    }
}

/// Whether a job can wait for an answer: a copy within the depth limit, a
/// walk, or an install with an override path.
pub open spec fn can_wait(job: JobView) -> bool {
    match job {
        JobView::Copy { src, dst, mode, depth } => depth <= MAX_DEPTH,
        JobView::Walk { src, dst, mode, depth } => true,
        JobView::Install { package, alt, src, dst, mode } => alt is Some,
        _ => false,
    }
}

/// The states that a run goes through: only a job that can wait does wait,
/// and a stopped run holds nothing.
pub open spec fn well_formed(state: InstallerView) -> bool {
    &&& state.waiting matches Some(job) ==> can_wait(job)
    &&& state.stopped ==> state == halted()
}

/// What the disk answers to the question of the job that waits.
pub open spec fn answer(disk: Disk, waiting: Option<JobView>) -> ReplyView {
    match waiting {
        Some(JobView::Copy { src, dst, mode, depth }) => ReplyView::Kind((disk.kind)(src)),
        Some(JobView::Walk { src, dst, mode, depth }) => ReplyView::Entries((disk.entries)(src)),
        Some(JobView::Install { package, alt, src, dst, mode }) => ReplyView::Found(
            alt is Some && (disk.exists)(alt->0),
        ),
        _ => ReplyView::Done,
    }
}

/// What is left of a run in a given state: the job that waits, then the
/// jobs that are left.
pub open spec fn remaining(disk: Disk, state: InstallerView) -> Trace {
    if state.stopped {
        failed(InstallErrorView::Stopped)
    } else {
        match state.waiting {
            Some(job) => followed_by(job_trace(disk, job), jobs_trace(disk, state.pending)),
            None => jobs_trace(disk, state.pending),
        }
    }
}

/// Running three things in a row does not depend on how they are grouped.
pub proof fn lemma_followed_by_assoc(a: Trace, b: Trace, c: Trace)
    ensures
        followed_by(followed_by(a, b), c) == followed_by(a, followed_by(b, c)),
{
    if a.end is Done && b.end is Done {
        assert((a.ops + b.ops) + c.ops =~= a.ops + (b.ops + c.ops));
    }
}

/// Two job lists in a row come to the one run followed by the other.
pub proof fn lemma_jobs_trace_concat(disk: Disk, first: Seq<JobView>, second: Seq<JobView>)
    ensures
        jobs_trace(disk, first + second) == followed_by(
            jobs_trace(disk, first),
            jobs_trace(disk, second),
        ),
    decreases first.len(),
{
    if first.len() == 0 {
        assert(first + second =~= second);
        let t = jobs_trace(disk, second);
        assert(Seq::<FsOpView>::empty() + t.ops =~= t.ops);
    } else {
        let head = job_trace(disk, first[0]);
        assert((first + second)[0] == first[0]);
        assert((first + second).drop_first() =~= first.drop_first() + second);
        lemma_jobs_trace_concat(disk, first.drop_first(), second);
        lemma_followed_by_assoc(
            head,
            jobs_trace(disk, first.drop_first()),
            jobs_trace(disk, second),
        );
    }
}

/// A list of one job comes to what the job comes to.
pub proof fn lemma_jobs_trace_single(disk: Disk, job: JobView)
    ensures
        jobs_trace(disk, seq![job]) == job_trace(disk, job),
{
    let t = job_trace(disk, job);
    assert(seq![job].drop_first() =~= Seq::<JobView>::empty());
    assert(jobs_trace(disk, seq![job].drop_first()) == done(Seq::empty()));
    assert(t.ops + Seq::<FsOpView>::empty() =~= t.ops);
}

/// The jobs that set a mode come to the operation that sets it.
pub proof fn lemma_mode_jobs_trace(disk: Disk, path: Seq<char>, mode: Option<u32>)
    ensures
        jobs_trace(disk, mode_jobs(path, mode)) == done(mode_ops(path, mode)),
{
    match mode {
        Some(m) => {
            lemma_jobs_trace_single(
                disk,
                JobView::Apply(FsOpView::SetPermissions { path, mode: m }),
            );
        },
        None => {},
    }
}

/// The copies that a directory listing gives come to what walking the
/// listing comes to: hidden names leave no trace.
pub proof fn lemma_child_jobs_trace(
    disk: Disk,
    names: Seq<Seq<char>>,
    src: Seq<char>,
    dst: Seq<char>,
    mode: Option<u32>,
    depth: u32,
)
    ensures
        jobs_trace(disk, child_jobs(names, src, dst, mode, depth)) == walk_trace(
            disk,
            names,
            src,
            dst,
            mode,
            depth,
        ),
    decreases names.len(),
{
    if names.len() == 0 {
        reveal(Seq::filter);
        assert(child_jobs(names, src, dst, mode, depth) =~= Seq::<JobView>::empty());
    } else {
        let head = seq![names[0]];
        let tail = names.drop_first();
        let hidden = |name: Seq<char>| !is_hidden_name(name);
        assert(names =~= head + tail);
        Seq::filter_distributes_over_add(head, tail, hidden);
        assert(visible(names) == visible(head) + visible(tail));
        assert(visible(head) =~= if is_hidden_name(names[0]) {
            Seq::<Seq<char>>::empty()
        } else {
            head
        }) by {
            reveal(Seq::filter);
            assert(head.drop_last() =~= Seq::<Seq<char>>::empty());
            assert(head.drop_last().filter(hidden) =~= Seq::<Seq<char>>::empty());
        }
        lemma_child_jobs_trace(disk, tail, src, dst, mode, depth);
        let rest = child_jobs(tail, src, dst, mode, depth);
        if is_hidden_name(names[0]) {
            assert(visible(names) =~= visible(tail));
        } else {
            let first = child_job(names[0], src, dst, mode, depth);
            assert(child_jobs(names, src, dst, mode, depth) =~= seq![first] + rest);
            lemma_jobs_trace_concat(disk, seq![first], rest);
            lemma_jobs_trace_single(disk, first);
        }
    }
}

/// The jobs that an answer gives come to what the job that waited comes
/// to, where the answer is the disk's.
pub proof fn lemma_expansion_trace(disk: Disk, job: JobView)
    requires
        can_wait(job),
    ensures
        match expansion(Some(job), answer(disk, Some(job))) {
            Ok(jobs) => jobs_trace(disk, jobs) == job_trace(disk, job),
            Err(error) => job_trace(disk, job) == failed(error),
        },
{
    match job {
        JobView::Copy { src, dst, mode, depth } => {
            match (disk.kind)(src) {
                NodeKind::File => {
                    match parent_of(dst) {
                        Some(dir) => {
                            let made = JobView::Apply(FsOpView::CreateDirAll { path: dir });
                            let copied = JobView::Apply(FsOpView::CopyFile { src, dst });
                            let tail = mode_jobs(dst, mode);
                            assert(file_jobs(src, dst, dir, mode) =~= seq![made] + (seq![copied]
                                + tail));
                            lemma_mode_jobs_trace(disk, dst, mode);
                            lemma_jobs_trace_concat(disk, seq![copied], tail);
                            lemma_jobs_trace_single(disk, copied);
                            lemma_jobs_trace_concat(disk, seq![made], seq![copied] + tail);
                            lemma_jobs_trace_single(disk, made);
                            assert(jobs_trace(disk, file_jobs(src, dst, dir, mode)).ops =~= seq![
                                FsOpView::CreateDirAll { path: dir },
                                FsOpView::CopyFile { src, dst },
                            ] + mode_ops(dst, mode));
                        },
                        None => {},
                    }
                },
                NodeKind::Dir => {
                    let made = JobView::Apply(FsOpView::CreateDirAll { path: dst });
                    let walk = JobView::Walk { src, dst, mode, depth };
                    let tail = mode_jobs(dst, mode);
                    assert(dir_jobs(src, dst, mode, depth) =~= seq![made] + (tail + seq![walk]));
                    lemma_mode_jobs_trace(disk, dst, mode);
                    lemma_jobs_trace_single(disk, walk);
                    lemma_jobs_trace_concat(disk, tail, seq![walk]);
                    lemma_jobs_trace_single(disk, made);
                    lemma_jobs_trace_concat(disk, seq![made], tail + seq![walk]);
                    let walked = job_trace(disk, walk);
                    lemma_followed_by_assoc(
                        done(seq![FsOpView::CreateDirAll { path: dst }]),
                        done(mode_ops(dst, mode)),
                        walked,
                    );
                    assert(followed_by(
                        done(seq![FsOpView::CreateDirAll { path: dst }]),
                        done(mode_ops(dst, mode)),
                    ) == done(seq![FsOpView::CreateDirAll { path: dst }] + mode_ops(dst, mode)));
                },
                NodeKind::Other => {},
            }
        },
        JobView::Walk { src, dst, mode, depth } => {
            lemma_child_jobs_trace(disk, (disk.entries)(src), src, dst, mode, depth);
        },
        JobView::Install { package, alt, src, dst, mode } => {
            match chosen_source(disk, alt, src) {
                Some(chosen) => {
                    lemma_jobs_trace_single(
                        disk,
                        JobView::Copy { src: chosen, dst, mode, depth: 0 },
                    );
                },
                None => {},
            }
        },
        _ => {},
    }
}

/// What taking up the first job hands out is what the jobs come to first:
/// an operation is the first of the run and leaves the rest of it; a
/// question leaves the run as it is; the end of the jobs is the end of the
/// run; and an error ends the run where the jobs fail.
pub open spec fn hands_out(disk: Disk, whole: Trace, next: InstallerView, action: ActionView) -> bool {
    match action {
        ActionView::Apply(op) => whole == followed_by(done(seq![op]), remaining(disk, next)),
        ActionView::Finished => whole == done(Seq::empty()),
        ActionView::Abort(error) => whole == failed(error),
        _ => !next.stopped && whole == remaining(disk, next),
    }
}

/// Taking up the first of the jobs hands out the start of what the jobs
/// come to.
pub proof fn lemma_dispatch_follows_trace(disk: Disk, pending: Seq<JobView>)
    ensures
        well_formed(dispatch(pending).0),
        hands_out(disk, jobs_trace(disk, pending), dispatch(pending).0, dispatch(pending).1),
{
}

/// Every state that a run goes through is well formed, whatever the caller
/// answers.
pub proof fn lemma_step_keeps_well_formed(state: InstallerView, reply: ReplyView)
    ensures
        well_formed(step(state, reply).0),
{
}

/// The installer hands out what the jobs come to, step by step.
///
/// In any state of a run that has not stopped, answered by the disk, the
/// next action is the start of what is left of the run: an operation is its
/// first operation, and what is left after the step is the rest; a question
/// leaves it unchanged; the run is finished exactly where nothing is left,
/// and aborted with the error that what is left fails with at once.
pub proof fn lemma_step_follows_trace(disk: Disk, state: InstallerView)
    requires
        well_formed(state),
        !state.stopped,
    ensures
        well_formed(step(state, answer(disk, state.waiting)).0),
        hands_out(
            disk,
            remaining(disk, state),
            step(state, answer(disk, state.waiting)).0,
            step(state, answer(disk, state.waiting)).1,
        ),
{
    let reply = answer(disk, state.waiting);
    match state.waiting {
        None => {
            assert(Seq::<JobView>::empty() + state.pending =~= state.pending);
            lemma_dispatch_follows_trace(disk, state.pending);
        },
        Some(job) => {
            lemma_expansion_trace(disk, job);
            match expansion(state.waiting, reply) {
                Ok(jobs) => {
                    lemma_jobs_trace_concat(disk, jobs, state.pending);
                    lemma_dispatch_follows_trace(disk, jobs + state.pending);
                },
                Err(error) => {},
            }
        },
    }
}

} // verus!
