//! Job lists: how they are put together and when one ends a run.

use vstd::prelude::*;
use crate::ops::view_of;
use crate::ops::views;
use crate::ops::FsOp;
use crate::ops::FsOpView;
use crate::ops::Job;
use crate::ops::JobView;

verus! {

/// Whether the list ends a run: its last job is a failure.
pub open spec fn fails(jobs: Seq<JobView>) -> bool {
    jobs.len() > 0 && jobs.last() is Fail
}

/// The lists one after another, up to and including the first that ends a
/// run. What follows a failure is never planned.
pub open spec fn until_failure(lists: Seq<Seq<JobView>>) -> Seq<JobView>
    decreases lists.len(),
{
    if lists.len() == 0 {
        Seq::empty()
    } else if fails(lists[0]) {
        lists[0]
    } else {
        lists[0] + until_failure(lists.drop_first())
    }
}

/// Whether none of the first `n` lists ends a run.
pub open spec fn none_fails(lists: Seq<Seq<JobView>>, n: int) -> bool {
    forall|k: int| 0 <= k < n ==> !fails(#[trigger] lists[k])
}

/// While no list fails, planning them one by one is planning them all: the
/// first `n + 1` lists give what the first `n` give, followed by the next.
pub proof fn lemma_until_failure_step(lists: Seq<Seq<JobView>>, n: int)
    requires
        0 <= n < lists.len(),
        none_fails(lists, n),
    ensures
        until_failure(lists.subrange(0, n + 1)) == until_failure(lists.subrange(0, n)) + lists[n],
    decreases n,
{
    let longer = lists.subrange(0, n + 1);
    let shorter = lists.subrange(0, n);
    if n == 0 {
        assert(longer.drop_first() =~= Seq::<Seq<JobView>>::empty());
        assert(until_failure(longer.drop_first()) =~= Seq::<JobView>::empty());
        assert(until_failure(shorter) =~= Seq::<JobView>::empty());
        assert(longer[0] == lists[0]);
        assert(until_failure(longer) =~= lists[0]);
    } else {
        let tail = lists.drop_first();
        assert(!fails(lists[0]));
        assert forall|k: int| 0 <= k < n - 1 implies !fails(#[trigger] tail[k]) by {
            assert(tail[k] == lists[k + 1]);
        }
        lemma_until_failure_step(tail, n - 1);
        assert(longer.drop_first() =~= tail.subrange(0, n));
        assert(shorter.drop_first() =~= tail.subrange(0, n - 1));
        assert(longer[0] == lists[0]);
        assert(shorter[0] == lists[0]);
        assert(tail[n - 1] == lists[n]);
        assert(until_failure(longer) =~= until_failure(shorter) + lists[n]);
    }
}

/// Planning stops at the first list that fails: what follows it adds
/// nothing.
pub proof fn lemma_until_failure_stops(lists: Seq<Seq<JobView>>, n: int)
    requires
        0 <= n < lists.len(),
        none_fails(lists, n),
        fails(lists[n]),
    ensures
        until_failure(lists) == until_failure(lists.subrange(0, n + 1)),
    decreases n,
{
    let prefix = lists.subrange(0, n + 1);
    if n == 0 {
        assert(prefix[0] == lists[0]);
    } else {
        let tail = lists.drop_first();
        assert(!fails(lists[0]));
        assert forall|k: int| 0 <= k < n - 1 implies !fails(#[trigger] tail[k]) by {
            assert(tail[k] == lists[k + 1]);
        }
        assert(tail[n - 1] == lists[n]);
        lemma_until_failure_stops(tail, n - 1);
        assert(prefix.drop_first() =~= tail.subrange(0, n));
        assert(prefix[0] == lists[0]);
    }
}

/// Tells whether the list ends a run.
pub fn ends_in_failure(jobs: &Vec<Job>) -> (r: bool)
    ensures
        r == fails(views(jobs@)),
{
    let n: usize = jobs.len();
    if n == 0 {
        false
    } else {
        assert(views(jobs@).last() == jobs@[n - 1]@);
        match &jobs[n - 1] {
            Job::Fail(_) => true,
            _ => false,
        }
    }
}

/// Moves the jobs of `more` to the end of `jobs`.
pub(crate) fn append_jobs(jobs: &mut Vec<Job>, more: Vec<Job>)
    ensures
        views(final(jobs)@) == views(old(jobs)@) + views(more@),
{
    let mut more = more;
    let ghost added = more@;
    jobs.append(&mut more);
    assert(views(jobs@) =~= views(old(jobs)@) + views(added));
}

/// Puts one operation at the end of `jobs`.
pub(crate) fn push_op(jobs: &mut Vec<Job>, op: FsOp)
    ensures
        views(final(jobs)@) == views(old(jobs)@).push(JobView::Apply(op@)),
{
    jobs.push(Job::Apply(op));
    assert(views(jobs@) =~= views(old(jobs)@).push(JobView::Apply(op@)));
}

/// The jobs that put a symbolic link with the text `original` at `link`,
/// whatever was there before: make the directory `parent`, where one is
/// given; remove the entry at `link`; create the link.
pub open spec fn link_jobs(original: Seq<char>, link: Seq<char>, parent: Option<Seq<char>>) -> Seq<
    JobView,
> {
    let replace = seq![
        JobView::Apply(FsOpView::RemoveFile { path: link }),
        JobView::Apply(FsOpView::Symlink { original, link }),
    ];
    match parent {
        Some(dir) => seq![JobView::Apply(FsOpView::CreateDirAll { path: dir })] + replace,
        None => replace,
    }
}

/// Plans a symbolic link with the text `original` at `link`, replacing what
/// is there. The directory `parent`, where one is given, is made first.
pub fn plan_link(original: &str, link: String, parent: Option<String>) -> (jobs: Vec<Job>)
    ensures
        views(jobs@) == link_jobs(original@, link@, view_of(parent)),
{
    let mut jobs: Vec<Job> = Vec::new();
    assert(views(jobs@) =~= Seq::<JobView>::empty());
    match parent {
        Some(dir) => {
            push_op(&mut jobs, FsOp::CreateDirAll { path: dir });
        },
        None => {},
    }
    push_op(&mut jobs, FsOp::RemoveFile { path: link.clone() });
    push_op(&mut jobs, FsOp::Symlink { original: String::from_str(original), link });
    assert(views(jobs@) =~= link_jobs(original@, link@, view_of(parent)));
    jobs
}

} // verus!
