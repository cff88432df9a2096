//! Whole runs: every run ends, and hands out exactly what its jobs come to.

use vstd::prelude::*;
use crate::installer::child_job;
use crate::installer::child_jobs;
use crate::installer::dir_jobs;
use crate::installer::dispatch;
use crate::installer::expansion;
use crate::installer::file_jobs;
use crate::installer::mode_jobs;
use crate::installer::next_depth;
use crate::installer::step;
use crate::installer::visible;
use crate::installer::ActionView;
use crate::installer::InstallerView;
use crate::installer::NodeKind;
use crate::installer::MAX_DEPTH;
use crate::ops::FsOpView;
use crate::ops::JobView;
use crate::path::joined;
use crate::path::parent_of;
use crate::text::is_hidden_name;
use crate::trace::answer;
use crate::trace::can_wait;
use crate::trace::chosen_source;
use crate::trace::done;
use crate::trace::failed;
use crate::trace::followed_by;
use crate::trace::jobs_trace;
use crate::trace::lemma_step_follows_trace;
use crate::trace::remaining;
use crate::trace::well_formed;
use crate::trace::Disk;
use crate::trace::Trace;

verus! {

/// What a run hands out from a given state when the disk answers every
/// question and at most `fuel` steps are made: the operations in their
/// order, and how the run ends. Nothing where the steps do not suffice.
pub open spec fn run(disk: Disk, state: InstallerView, fuel: nat) -> Option<Trace>
    decreases fuel,
{
    if fuel == 0 {
        None
    } else {
        let (next, action) = step(state, answer(disk, state.waiting));
        match action {
            ActionView::Finished => Some(done(Seq::empty())),
            ActionView::Abort(error) => Some(failed(error)),
            ActionView::Apply(op) => match run(disk, next, (fuel - 1) as nat) {
                Some(rest) => Some(followed_by(done(seq![op]), rest)),
                None => None,
            },
            _ => run(disk, next, (fuel - 1) as nat),
        }
    }
}

/// How many operations set a mode: one where a mode is given.
pub open spec fn mode_steps(mode: Option<u32>) -> nat {
    if mode is Some {
        1
    } else {
        0
    }
}

/// A bound on the steps that a copy takes.
pub open spec fn copy_steps(
    disk: Disk,
    src: Seq<char>,
    dst: Seq<char>,
    mode: Option<u32>,
    depth: u32,
) -> nat
    decreases
            (if depth > MAX_DEPTH {
                0
            } else {
                2 * (MAX_DEPTH - depth) + 2
            }),
            0nat,
{
    if depth > MAX_DEPTH {
        1
    } else {
        1 + match (disk.kind)(src) {
            NodeKind::File => if parent_of(dst) is Some {
                2 + mode_steps(mode)
            } else {
                0
            },
            NodeKind::Dir => 2 + mode_steps(mode) + walk_steps(
                disk,
                (disk.entries)(src),
                src,
                dst,
                mode,
                depth,
            ),
            NodeKind::Other => 0,
        }
    }
}

/// A bound on the steps that the copies of the entries of a directory take.
pub open spec fn walk_steps(
    disk: Disk,
    names: Seq<Seq<char>>,
    src: Seq<char>,
    dst: Seq<char>,
    mode: Option<u32>,
    depth: u32,
) -> nat
    decreases
            (if depth > MAX_DEPTH {
                1
            } else {
                2 * (MAX_DEPTH - depth) + 1
            }),
            names.len(),
{
    if names.len() == 0 {
        0
    } else {
        let rest = walk_steps(disk, names.drop_first(), src, dst, mode, depth);
        if is_hidden_name(names[0]) {
            rest
        } else {
            copy_steps(
                disk,
                joined(src, names[0]),
                joined(dst, names[0]),
                mode,
                next_depth(depth),
            ) + rest
        }
    }
}

/// A bound on the steps that a job takes, from where it is taken up.
pub open spec fn job_steps(disk: Disk, job: JobView) -> nat {
    match job {
        JobView::Apply(_) => 1,
        JobView::Fail(_) => 1,
        JobView::Copy { src, dst, mode, depth } => copy_steps(disk, src, dst, mode, depth),
        JobView::Walk { src, dst, mode, depth } => 1 + walk_steps(
            disk,
            (disk.entries)(src),
            src,
            dst,
            mode,
            depth,
        ),
        JobView::Install { package, alt, src, dst, mode } => match alt {
            Some(_) => 1 + match chosen_source(disk, alt, src) {
                Some(src) => copy_steps(disk, src, dst, mode, 0),
                None => 0,
            },
            None => match src {
                Some(src) => copy_steps(disk, src, dst, mode, 0),
                None => 1,
            },
        },
    }
}

/// A bound on the steps that a list of jobs takes.
pub open spec fn jobs_steps(disk: Disk, jobs: Seq<JobView>) -> nat
    decreases jobs.len(),
{
    if jobs.len() == 0 {
        0
    } else {
        job_steps(disk, jobs[0]) + jobs_steps(disk, jobs.drop_first())
    }
}

/// A bound on the steps that are left of a run in a given state.
pub open spec fn steps_left(disk: Disk, state: InstallerView) -> nat {
    match state.waiting {
        Some(job) => (job_steps(disk, job) - 1) as nat + jobs_steps(disk, state.pending),
        None => jobs_steps(disk, state.pending),
    }
}

proof fn lemma_jobs_steps_concat(disk: Disk, first: Seq<JobView>, second: Seq<JobView>)
    ensures
        jobs_steps(disk, first + second) == jobs_steps(disk, first) + jobs_steps(disk, second),
    decreases first.len(),
{
    if first.len() == 0 {
        assert(first + second =~= second);
    } else {
        assert((first + second)[0] == first[0]);
        assert((first + second).drop_first() =~= first.drop_first() + second);
        lemma_jobs_steps_concat(disk, first.drop_first(), second);
    }
}

proof fn lemma_jobs_steps_single(disk: Disk, job: JobView)
    ensures
        jobs_steps(disk, seq![job]) == job_steps(disk, job),
{
    assert(seq![job].drop_first() =~= Seq::<JobView>::empty());
    assert(jobs_steps(disk, seq![job].drop_first()) == 0);
}

proof fn lemma_mode_jobs_steps(disk: Disk, path: Seq<char>, mode: Option<u32>)
    ensures
        jobs_steps(disk, mode_jobs(path, mode)) == mode_steps(mode),
{
    match mode {
        Some(m) => {
            lemma_jobs_steps_single(
                disk,
                JobView::Apply(FsOpView::SetPermissions { path, mode: m }),
            );
        },
        None => {},
    }
}

proof fn lemma_child_jobs_steps(
    disk: Disk,
    names: Seq<Seq<char>>,
    src: Seq<char>,
    dst: Seq<char>,
    mode: Option<u32>,
    depth: u32,
)
    ensures
        jobs_steps(disk, child_jobs(names, src, dst, mode, depth)) == walk_steps(
            disk,
            names,
            src,
            dst,
            mode,
            depth,
        ),
    decreases names.len(),
{
    if names.len() == 0 {
        reveal(Seq::filter);
        assert(child_jobs(names, src, dst, mode, depth) =~= Seq::<JobView>::empty());
    } else {
        let head = seq![names[0]];
        let tail = names.drop_first();
        let shown = |name: Seq<char>| !is_hidden_name(name);
        assert(names =~= head + tail);
        Seq::filter_distributes_over_add(head, tail, shown);
        assert(visible(names) == visible(head) + visible(tail));
        assert(visible(head) =~= if is_hidden_name(names[0]) {
            Seq::<Seq<char>>::empty()
        } else {
            head
        }) by {
            reveal(Seq::filter);
            assert(head.drop_last() =~= Seq::<Seq<char>>::empty());
            assert(head.drop_last().filter(shown) =~= Seq::<Seq<char>>::empty());
        }
        lemma_child_jobs_steps(disk, tail, src, dst, mode, depth);
        let rest = child_jobs(tail, src, dst, mode, depth);
        if is_hidden_name(names[0]) {
            assert(visible(names) =~= visible(tail));
        } else {
            let first = child_job(names[0], src, dst, mode, depth);
            assert(child_jobs(names, src, dst, mode, depth) =~= seq![first] + rest);
            lemma_jobs_steps_concat(disk, seq![first], rest);
            lemma_jobs_steps_single(disk, first);
        }
    }
}

/// The jobs that an answer gives take the steps that were left of the job
/// that waited.
proof fn lemma_expansion_steps(disk: Disk, job: JobView)
    requires
        can_wait(job),
    ensures
        job_steps(disk, job) >= 1,
        expansion(Some(job), answer(disk, Some(job))) matches Ok(jobs) ==> jobs_steps(disk, jobs)
            == job_steps(disk, job) - 1,
{
    match job {
        JobView::Copy { src, dst, mode, depth } => {
            match (disk.kind)(src) {
                NodeKind::File => {
                    match parent_of(dst) {
                        Some(dir) => {
                            let made = JobView::Apply(FsOpView::CreateDirAll { path: dir });
                            let copied = JobView::Apply(FsOpView::CopyFile { src, dst });
                            let tail = mode_jobs(dst, mode);
                            assert(file_jobs(src, dst, dir, mode) =~= seq![made] + (seq![copied]
                                + tail));
                            lemma_mode_jobs_steps(disk, dst, mode);
                            lemma_jobs_steps_concat(disk, seq![copied], tail);
                            lemma_jobs_steps_single(disk, copied);
                            lemma_jobs_steps_concat(disk, seq![made], seq![copied] + tail);
                            lemma_jobs_steps_single(disk, made);
                        },
                        None => {},
                    }
                },
                NodeKind::Dir => {
                    let made = JobView::Apply(FsOpView::CreateDirAll { path: dst });
                    let walk = JobView::Walk { src, dst, mode, depth };
                    let tail = mode_jobs(dst, mode);
                    assert(dir_jobs(src, dst, mode, depth) =~= seq![made] + (tail + seq![walk]));
                    lemma_mode_jobs_steps(disk, dst, mode);
                    lemma_jobs_steps_single(disk, walk);
                    lemma_jobs_steps_concat(disk, tail, seq![walk]);
                    lemma_jobs_steps_single(disk, made);
                    lemma_jobs_steps_concat(disk, seq![made], tail + seq![walk]);
                },
                NodeKind::Other => {},
            }
        },
        JobView::Walk { src, dst, mode, depth } => {
            lemma_child_jobs_steps(disk, (disk.entries)(src), src, dst, mode, depth);
        },
        JobView::Install { package, alt, src, dst, mode } => {
            match chosen_source(disk, alt, src) {
                Some(chosen) => {
                    lemma_jobs_steps_single(
                        disk,
                        JobView::Copy { src: chosen, dst, mode, depth: 0 },
                    );
                },
                None => {},
            }
        },
        _ => {},
    }
}

/// Taking up a job that does not end the run leaves one step less.
proof fn lemma_dispatch_steps(disk: Disk, pending: Seq<JobView>)
    ensures
        ({
            let (next, action) = dispatch(pending);
            !(action is Finished || action is Abort) ==> !next.stopped && steps_left(disk, next)
                + 1 == jobs_steps(disk, pending)
        }),
{
}

/// A step that does not end the run leaves fewer steps.
pub proof fn lemma_step_leaves_fewer(disk: Disk, state: InstallerView)
    requires
        well_formed(state),
        !state.stopped,
    ensures
        ({
            let (next, action) = step(state, answer(disk, state.waiting));
            !(action is Finished || action is Abort) ==> !next.stopped && steps_left(disk, next)
                < steps_left(disk, state)
        }),
{
    let reply = answer(disk, state.waiting);
    match state.waiting {
        None => {
            assert(Seq::<JobView>::empty() + state.pending =~= state.pending);
            lemma_dispatch_steps(disk, state.pending);
        },
        Some(job) => {
            lemma_expansion_steps(disk, job);
            match expansion(state.waiting, reply) {
                Ok(jobs) => {
                    lemma_jobs_steps_concat(disk, jobs, state.pending);
                    lemma_dispatch_steps(disk, jobs + state.pending);
                },
                Err(error) => {},
            }
        },
    }
}

/// Every run ends, and hands out what is left of it.
///
/// From any state that a run goes through, once the steps suffice, the run
/// on a given disk hands out exactly the operations that the job that waits
/// and the jobs that are left come to, in their order, and ends as they
/// end. The steps suffice from `steps_left` on.
pub proof fn lemma_run_comes_to_what_is_left(disk: Disk, state: InstallerView, fuel: nat)
    requires
        well_formed(state),
        !state.stopped,
        fuel > steps_left(disk, state),
    ensures
        run(disk, state, fuel) == Some(remaining(disk, state)),
    decreases fuel,
{
    let (next, action) = step(state, answer(disk, state.waiting));
    lemma_step_follows_trace(disk, state);
    lemma_step_leaves_fewer(disk, state);
    if !(action is Finished || action is Abort) {
        lemma_run_comes_to_what_is_left(disk, next, (fuel - 1) as nat);
    }
}

/// The run of a list of jobs hands out exactly what the jobs come to.
pub proof fn lemma_run_of_jobs(disk: Disk, jobs: Seq<JobView>)
    ensures
        run(
            disk,
            InstallerView { pending: jobs, waiting: None, stopped: false },
            jobs_steps(disk, jobs) + 1,
        ) == Some(jobs_trace(disk, jobs)),
{
    lemma_run_comes_to_what_is_left(
        disk,
        InstallerView { pending: jobs, waiting: None, stopped: false },
        jobs_steps(disk, jobs) + 1,
    );
}

} // verus!
