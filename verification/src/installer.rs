//! The installer: a machine that turns jobs into single actions.
//!
//! The caller holds the filesystem. It performs each action that the
//! installer hands out and tells it what came of it; the installer decides
//! what comes next. A failure of the filesystem itself never reaches the
//! installer: the caller ends the run.

use vstd::prelude::*;
use crate::ops::view_of;
use crate::ops::views;
use crate::ops::FsOp;
use crate::ops::FsOpView;
use crate::ops::InstallError;
use crate::ops::InstallErrorView;
use crate::ops::Job;
use crate::ops::JobView;
use crate::path::joined;
use crate::path::parent_of;
use crate::path::path_join;
use crate::path::path_parent;
use crate::text::is_hidden;
use crate::text::is_hidden_name;

verus! {

/// How deep below its start a copy may go. A copy that would go deeper is
/// taken for a loop in the tree and ends the run.
pub const MAX_DEPTH: u32 = 20;

/// What lies at a path of the source tree.
#[derive(Clone, Copy, Debug, PartialEq, Eq, Structural)]
pub enum NodeKind {
    /// A regular file.
    File,
    /// A directory.
    Dir,
    /// Anything else, or nothing at all.
    Other,
}

/// What the installer asks of its caller next.
#[derive(Clone, Debug, PartialEq, Eq)]
pub enum Action {
    /// Tell what lies at `path`. Answered by `Reply::Kind`.
    Probe { path: String },
    /// Tell whether anything lies at `path`. Answered by `Reply::Found`.
    Exists { path: String },
    /// Tell the names of the entries of the directory `path`, in the order
    /// in which the directory lists them. Answered by `Reply::Entries`.
    List { path: String },
    /// Perform the operation. Answered by `Reply::Done`.
    Apply(FsOp),
    /// Nothing is left to do.
    Finished,
    /// The run ends with this error.
    Abort(InstallError),
}

pub enum ActionView {
    Probe { path: Seq<char> },
    Exists { path: Seq<char> },
    List { path: Seq<char> },
    Apply(FsOpView),
    Finished,
    Abort(InstallErrorView),
}

impl View for Action {
    type V = ActionView;

    open spec fn view(&self) -> ActionView {
        match self {
            Action::Probe { path } => ActionView::Probe { path: path@ },
            Action::Exists { path } => ActionView::Exists { path: path@ },
            Action::List { path } => ActionView::List { path: path@ },
            Action::Apply(op) => ActionView::Apply(op@),
            Action::Finished => ActionView::Finished,
            Action::Abort(error) => ActionView::Abort(error@),
        }
    }
}

/// What the caller tells the installer of the action it was handed last.
#[derive(Clone, Debug, PartialEq, Eq)]
pub enum Reply {
    /// The operation is performed. Also what a run starts with.
    Done,
    /// What lies at the path.
    Kind(NodeKind),
    /// Whether anything lies at the path.
    Found(bool),
    /// The names of the entries of the directory.
    Entries(Vec<String>),
}

pub enum ReplyView {
    Done,
    Kind(NodeKind),
    Found(bool),
    Entries(Seq<Seq<char>>),
}

impl View for Reply {
    type V = ReplyView;

    open spec fn view(&self) -> ReplyView {
        match self {
            Reply::Done => ReplyView::Done,
            Reply::Kind(kind) => ReplyView::Kind(*kind),
            Reply::Found(found) => ReplyView::Found(*found),
            Reply::Entries(names) => ReplyView::Entries(views(names@)),
        }
    }
}

/// The state of a run: the jobs that are left, in the order in which they
/// will be taken up; the job whose question the caller has been asked, if
/// any; and whether the run has ended with an error.
pub struct Installer {
    /// The jobs that are left. The last is the next.
    stack: Vec<Job>,
    waiting: Option<Job>,
    stopped: bool,
}

pub struct InstallerView {
    pub pending: Seq<JobView>,
    pub waiting: Option<JobView>,
    pub stopped: bool,
}

impl View for Installer {
    type V = InstallerView;

    closed spec fn view(&self) -> InstallerView {
        InstallerView {
            pending: views(self.stack@).reverse(),
            waiting: view_of(self.waiting),
            stopped: self.stopped,
        }
    }
}

/// One level deeper, as far as the number goes.
pub open spec fn next_depth(depth: u32) -> u32 {
    if depth < u32::MAX {
        (depth + 1) as u32
    } else {
        depth
    }
}

/// The operation that sets the permissions of `path`, where a mode is given.
pub open spec fn mode_jobs(path: Seq<char>, mode: Option<u32>) -> Seq<JobView> {
    match mode {
        Some(mode) => seq![JobView::Apply(FsOpView::SetPermissions { path, mode })],
        None => Seq::empty(),
    }
}

/// The jobs that install the file `src` as `dst`: make the directory `dir`
/// that is to hold it, copy the contents, and then set the permissions where
/// a mode is given.
pub open spec fn file_jobs(src: Seq<char>, dst: Seq<char>, dir: Seq<char>, mode: Option<u32>) -> Seq<
    JobView,
> {
    seq![
        JobView::Apply(FsOpView::CreateDirAll { path: dir }),
        JobView::Apply(FsOpView::CopyFile { src, dst }),
    ] + mode_jobs(dst, mode)
}

/// The jobs that install the directory `src` as `dst`: make the directory,
/// set its permissions where a mode is given, and then copy its entries.
pub open spec fn dir_jobs(src: Seq<char>, dst: Seq<char>, mode: Option<u32>, depth: u32) -> Seq<
    JobView,
> {
    seq![JobView::Apply(FsOpView::CreateDirAll { path: dst })] + mode_jobs(dst, mode) + seq![
        JobView::Walk { src, dst, mode, depth },
    ]
}

/// The names that are not hidden, in their order.
pub open spec fn visible(names: Seq<Seq<char>>) -> Seq<Seq<char>> {
    names.filter(|name: Seq<char>| !is_hidden_name(name))
}

/// The job that copies the entry `name` of the directory `src` into the
/// directory `dst`, one level deeper.
pub open spec fn child_job(
    name: Seq<char>,
    src: Seq<char>,
    dst: Seq<char>,
    mode: Option<u32>,
    depth: u32,
) -> JobView {
    JobView::Copy {
        src: joined(src, name),
        dst: joined(dst, name),
        mode,
        depth: next_depth(depth),
    }
}

/// The jobs that copy the entries of a directory: one for each name that is
/// not hidden, in the order of the listing.
pub open spec fn child_jobs(
    names: Seq<Seq<char>>,
    src: Seq<char>,
    dst: Seq<char>,
    mode: Option<u32>,
    depth: u32,
) -> Seq<JobView> {
    visible(names).map_values(|name: Seq<char>| child_job(name, src, dst, mode, depth))
}

/// What takes the place of the job that waits, once the caller has
/// answered: the jobs to take up next, or the error that ends the run.
/// An answer to another question than the one asked is such an error.
pub open spec fn expansion(waiting: Option<JobView>, reply: ReplyView) -> Result<
    Seq<JobView>,
    InstallErrorView,
> {
    match (waiting, reply) {
        (None, ReplyView::Done) => Ok(Seq::empty()),
        (Some(JobView::Copy { src, dst, mode, depth }), ReplyView::Kind(kind)) => match kind {
            NodeKind::File => match parent_of(dst) {
                Some(dir) => Ok(file_jobs(src, dst, dir, mode)),
                None => Err(InstallErrorView::NoParentDirectory { path: dst }),
            },
            NodeKind::Dir => Ok(dir_jobs(src, dst, mode, depth)),
            NodeKind::Other => Err(InstallErrorView::ArtifactNotFound { path: src }),
        },
        (Some(JobView::Walk { src, dst, mode, depth }), ReplyView::Entries(names)) => Ok(
            child_jobs(names, src, dst, mode, depth),
        ),
        (Some(JobView::Install { package, alt, src, dst, mode }), ReplyView::Found(found)) => {
            if found && alt is Some {
                Ok(seq![JobView::Copy { src: alt->0, dst, mode, depth: 0 }])
            } else {
                match src {
                    Some(src) => Ok(seq![JobView::Copy { src, dst, mode, depth: 0 }]),
                    None => Err(InstallErrorView::NoManifestDirectory { package }),
                }
            }
        },
        _ => Err(InstallErrorView::UnexpectedReply),
    }
}

/// The state of a run that has ended with an error.
pub open spec fn halted() -> InstallerView {
    InstallerView { pending: Seq::empty(), waiting: None, stopped: true }
}

/// Takes up the first of the jobs that are left: the action to hand out,
/// and the state in which its answer is awaited.
///
/// An operation is handed out as it is. A failure ends the run. A copy
/// deeper than `MAX_DEPTH` ends the run; any other copy asks what lies at
/// its source. A walk asks for the entries of its directory. An install
/// asks whether the override path exists; without one it is the copy of its
/// own source, and without that too it ends the run.
pub open spec fn dispatch(pending: Seq<JobView>) -> (InstallerView, ActionView) {
    if pending.len() == 0 {
        (InstallerView { pending, waiting: None, stopped: false }, ActionView::Finished)
    } else {
        let rest = pending.drop_first();
        match pending[0] {
            JobView::Apply(op) => (
                InstallerView { pending: rest, waiting: None, stopped: false },
                ActionView::Apply(op),
            ),
            JobView::Fail(error) => (halted(), ActionView::Abort(error)),
            JobView::Copy { src, dst, mode, depth } => if depth > MAX_DEPTH {
                (halted(), ActionView::Abort(InstallErrorView::RecursionLimit { path: src }))
            } else {
                (
                    InstallerView { pending: rest, waiting: Some(pending[0]), stopped: false },
                    ActionView::Probe { path: src },
                )
            },
            JobView::Walk { src, dst, mode, depth } => (
                InstallerView { pending: rest, waiting: Some(pending[0]), stopped: false },
                ActionView::List { path: src },
            ),
            JobView::Install { package, alt, src, dst, mode } => match alt {
                Some(path) => (
                    InstallerView { pending: rest, waiting: Some(pending[0]), stopped: false },
                    ActionView::Exists { path },
                ),
                None => match src {
                    Some(src) => (
                        InstallerView {
                            pending: rest,
                            waiting: Some(JobView::Copy { src, dst, mode, depth: 0 }),
                            stopped: false,
                        },
                        ActionView::Probe { path: src },
                    ),
                    None => (
                        halted(),
                        ActionView::Abort(InstallErrorView::NoManifestDirectory { package }),
                    ),
                },
            },
        }
    }
}

/// One step of a run: from the state and the caller's answer to the next
/// state and the next action. The jobs that the answer gives take the place
/// of the job that waited, before the jobs that were left, and the first of
/// them all is taken up.
pub open spec fn step(state: InstallerView, reply: ReplyView) -> (InstallerView, ActionView) {
    if state.stopped {
        (halted(), ActionView::Abort(InstallErrorView::Stopped))
    } else {
        match expansion(state.waiting, reply) {
            Ok(jobs) => dispatch(jobs + state.pending),
            Err(error) => (halted(), ActionView::Abort(error)),
        }
    }
}

/// Plans the copies of the entries of a directory.
pub fn plan_children(names: &Vec<String>, src: &str, dst: &str, mode: Option<u32>, depth: u32) -> (jobs:
    Vec<Job>)
    ensures
        views(jobs@) == child_jobs(views(names@), src@, dst@, mode, depth),
{
    let n: usize = names.len();
    let ghost all = views(names@);
    let below: u32 = if depth < u32::MAX {
        depth + 1
    } else {
        depth
    };
    let mut jobs: Vec<Job> = Vec::new();
    let mut i: usize = 0;
    proof {
        reveal(Seq::filter);
        assert(all.subrange(0, 0) =~= Seq::<Seq<char>>::empty());
        assert(views(jobs@) =~= child_jobs(all.subrange(0, 0), src@, dst@, mode, depth));
    }
    while i < n
        invariant
            i <= n,
            n == names.len(),
            all == views(names@),
            below == next_depth(depth),
            views(jobs@) == child_jobs(all.subrange(0, i as int), src@, dst@, mode, depth),
        decreases n - i,
    {
        let name = &names[i];
        let ghost seen = all.subrange(0, i as int);
        let ghost more = all.subrange(0, i + 1);
        proof {
            reveal(Seq::filter);
            assert(more.drop_last() =~= seen);
            assert(more.last() == name@);
        }
        let ghost planned = jobs@;
        if !is_hidden(name.as_str()) {
            jobs.push(
                Job::Copy {
                    src: path_join(src, name.as_str()),
                    dst: path_join(dst, name.as_str()),
                    mode,
                    depth: below,
                },
            );
            assert(visible(more) == visible(seen).push(name@));
            assert(jobs@.last()@ == child_job(name@, src@, dst@, mode, depth));
            assert(views(jobs@) =~= views(planned).push(jobs@.last()@));
            assert(child_jobs(more, src@, dst@, mode, depth) =~= child_jobs(
                seen,
                src@,
                dst@,
                mode,
                depth,
            ).push(child_job(name@, src@, dst@, mode, depth)));
        } else {
            assert(visible(more) == visible(seen));
        }
        i = i + 1;
    }
    assert(all.subrange(0, n as int) =~= all);
    jobs
}

fn push_mode(jobs: &mut Vec<Job>, path: &String, mode: Option<u32>)
    ensures
        views(final(jobs)@) == views(old(jobs)@) + mode_jobs(path@, mode),
{
    match mode {
        Some(mode) => {
            jobs.push(Job::Apply(FsOp::SetPermissions { path: path.clone(), mode }));
        },
        None => {},
    }
    assert(views(jobs@) =~= views(old(jobs)@) + mode_jobs(path@, mode));
}

/// The jobs that take the place of the job that waits, given the caller's
/// answer, or the error that ends the run.
fn expand(waiting: Option<Job>, reply: Reply) -> (r: Result<Vec<Job>, InstallError>)
    ensures
        match r {
            Ok(jobs) => expansion(view_of(waiting), reply@) == Ok::<
                Seq<JobView>,
                InstallErrorView,
            >(views(jobs@)),
            Err(error) => expansion(view_of(waiting), reply@) == Err::<
                Seq<JobView>,
                InstallErrorView,
            >(error@),
        },
{
    let mut jobs: Vec<Job> = Vec::new();
    assert(views(jobs@) =~= Seq::<JobView>::empty());
    match (waiting, reply) {
        (None, Reply::Done) => Ok(jobs),
        (Some(Job::Copy { src, dst, mode, depth }), Reply::Kind(kind)) => match kind {
            NodeKind::File => match path_parent(dst.as_str()) {
                Some(dir) => {
                    jobs.push(Job::Apply(FsOp::CreateDirAll { path: dir }));
                    jobs.push(Job::Apply(FsOp::CopyFile { src, dst: dst.clone() }));
                    assert(views(jobs@) =~= seq![
                        JobView::Apply(FsOpView::CreateDirAll { path: dir@ }),
                        JobView::Apply(FsOpView::CopyFile { src: src@, dst: dst@ }),
                    ]);
                    push_mode(&mut jobs, &dst, mode);
                    Ok(jobs)
                },
                None => Err(InstallError::NoParentDirectory { path: dst }),
            },
            NodeKind::Dir => {
                jobs.push(Job::Apply(FsOp::CreateDirAll { path: dst.clone() }));
                assert(views(jobs@) =~= seq![
                    JobView::Apply(FsOpView::CreateDirAll { path: dst@ }),
                ]);
                push_mode(&mut jobs, &dst, mode);
                let ghost before = views(jobs@);
                jobs.push(Job::Walk { src, dst, mode, depth });
                assert(views(jobs@) =~= before + seq![
                    JobView::Walk { src: src@, dst: dst@, mode, depth },
                ]);
                Ok(jobs)
            },
            NodeKind::Other => Err(InstallError::ArtifactNotFound { path: src }),
        },
        (Some(Job::Walk { src, dst, mode, depth }), Reply::Entries(names)) => {
            Ok(plan_children(&names, src.as_str(), dst.as_str(), mode, depth))
        },
        (Some(Job::Install { package, alt, src, dst, mode }), Reply::Found(found)) => {
            let chosen = match alt {
                Some(path) => if found {
                    Some(path)
                } else {
                    src
                },
                None => src,
            };
            match chosen {
                Some(src) => {
                    jobs.push(Job::Copy { src, dst, mode, depth: 0 });
                    assert(views(jobs@) =~= seq![
                        JobView::Copy { src: src@, dst: dst@, mode, depth: 0 },
                    ]);
                    Ok(jobs)
                },
                None => Err(InstallError::NoManifestDirectory { package }),
            }
        },
        _ => Err(InstallError::UnexpectedReply),
    }
}

/// Putting a job on the stack puts it first among the jobs that are left.
proof fn lemma_push_is_first(stack: Seq<Job>, job: Job)
    ensures
        views(stack.push(job)).reverse() == seq![job@] + views(stack).reverse(),
{
    assert(views(stack.push(job)).reverse() =~= seq![job@] + views(stack).reverse());
}

/// Taking a job off the stack takes the first of the jobs that are left.
proof fn lemma_pop_is_first(stack: Seq<Job>)
    requires
        stack.len() > 0,
    ensures
        views(stack).reverse()[0] == stack.last()@,
        views(stack.drop_last()).reverse() == views(stack).reverse().drop_first(),
{
    assert(views(stack.drop_last()).reverse() =~= views(stack).reverse().drop_first());
}

impl Installer {
    fn stop() -> (r: Installer)
        ensures
            r@ == halted(),
    {
        let r = Installer { stack: Vec::new(), waiting: None, stopped: true };
        assert(r@.pending =~= Seq::<JobView>::empty());
        r
    }

    /// A run that has the given jobs before it, the first of them first.
    /// Its first step takes `Reply::Done`.
    pub fn new(jobs: Vec<Job>) -> (r: Installer)
        ensures
            r@ == (InstallerView { pending: views(jobs@), waiting: None, stopped: false }),
    {
        let mut stack: Vec<Job> = Vec::new();
        assert(views(stack@).reverse() =~= Seq::<JobView>::empty());
        Installer::put_first(&mut stack, jobs);
        let r = Installer { stack, waiting: None, stopped: false };
        assert(r@.pending =~= views(jobs@));
        r
    }

    /// Puts `jobs` before the jobs that are left, in their order.
    fn put_first(stack: &mut Vec<Job>, jobs: Vec<Job>)
        ensures
            views(final(stack)@).reverse() == views(jobs@) + views(old(stack)@).reverse(),
    {
        let mut jobs = jobs;
        let ghost all = views(jobs@);
        let ghost below = views(stack@).reverse();
        assert(all.subrange(all.len() as int, all.len() as int) + below =~= below);
        while jobs.len() > 0
            invariant
                jobs@.len() <= all.len(),
                views(jobs@) == all.subrange(0, jobs@.len() as int),
                views(stack@).reverse() == all.subrange(jobs@.len() as int, all.len() as int)
                    + below,
            decreases jobs@.len(),
        {
            let ghost before = jobs@;
            let ghost stacked = stack@;
            let job = jobs.pop().unwrap();
            stack.push(job);
            proof {
                lemma_push_is_first(stacked, job);
                assert(job@ == views(before)[before.len() - 1]);
                assert(views(jobs@) =~= all.subrange(0, jobs@.len() as int));
                assert(seq![job@] + (all.subrange(before.len() as int, all.len() as int) + below)
                    =~= all.subrange(jobs@.len() as int, all.len() as int) + below);
            }
        }
        assert(all.subrange(0, all.len() as int) =~= all);
    }

    /// Takes up the first of the jobs that are left.
    fn take_up(stack: Vec<Job>) -> (r: (Installer, Action))
        ensures
            (r.0@, r.1@) == dispatch(views(stack@).reverse()),
    {
        let mut stack = stack;
        let ghost pending = views(stack@).reverse();
        let ghost before = stack@;
        let job = match stack.pop() {
            Some(job) => job,
            None => {
                let r = Installer { stack, waiting: None, stopped: false };
                assert(r@.pending =~= pending);
                return (r, Action::Finished);
            },
        };
        proof {
            lemma_pop_is_first(before);
            assert(stack@ =~= before.drop_last());
        }
        match job {
            Job::Apply(op) => (Installer { stack, waiting: None, stopped: false }, Action::Apply(op)),
            Job::Fail(error) => (Installer::stop(), Action::Abort(error)),
            Job::Copy { src, dst, mode, depth } => {
                if depth > MAX_DEPTH {
                    (Installer::stop(), Action::Abort(InstallError::RecursionLimit { path: src }))
                } else {
                    let path = src.clone();
                    (
                        Installer {
                            stack,
                            waiting: Some(Job::Copy { src, dst, mode, depth }),
                            stopped: false,
                        },
                        Action::Probe { path },
                    )
                }
            },
            Job::Walk { src, dst, mode, depth } => {
                let path = src.clone();
                (
                    Installer {
                        stack,
                        waiting: Some(Job::Walk { src, dst, mode, depth }),
                        stopped: false,
                    },
                    Action::List { path },
                )
            },
            Job::Install { package, alt, src, dst, mode } => match alt {
                Some(alt) => {
                    let path = alt.clone();
                    (
                        Installer {
                            stack,
                            waiting: Some(
                                Job::Install { package, alt: Some(alt), src, dst, mode },
                            ),
                            stopped: false,
                        },
                        Action::Exists { path },
                    )
                },
                None => match src {
                    Some(src) => {
                        let path = src.clone();
                        (
                            Installer {
                                stack,
                                waiting: Some(Job::Copy { src, dst, mode, depth: 0 }),
                                stopped: false,
                            },
                            Action::Probe { path },
                        )
                    },
                    None => (
                        Installer::stop(),
                        Action::Abort(InstallError::NoManifestDirectory { package }),
                    ),
                },
            },
        }
    }

    /// Makes one step of the run: takes the caller's answer to the action
    /// handed out last, and hands out the next action.
    pub fn step(self, reply: Reply) -> (r: (Installer, Action))
        ensures
            (r.0@, r.1@) == step(self@, reply@),
    {
        let Installer { stack, waiting, stopped } = self;
        if stopped {
            return (Installer::stop(), Action::Abort(InstallError::Stopped));
        }
        match expand(waiting, reply) {
            Ok(jobs) => {
                let mut stack = stack;
                Installer::put_first(&mut stack, jobs);
                Installer::take_up(stack)
            },
            Err(error) => (Installer::stop(), Action::Abort(error)),
        }
    }
}

} // verus!
