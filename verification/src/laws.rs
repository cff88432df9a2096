//! Facts that hold of every plan and of every run.

use vstd::prelude::*;
use crate::installer::dispatch;
use crate::installer::next_depth;
use crate::installer::visible;
use crate::installer::ActionView;
use crate::installer::NodeKind;
use crate::installer::MAX_DEPTH;
use crate::model::first_binary;
use crate::model::PackageView;
use crate::model::RuleEntryView;
use crate::model::TargetView;
use crate::ops::FsOpView;
use crate::ops::InstallErrorView;
use crate::ops::JobView;
use crate::path::file_name_of;
use crate::path::joined;
use crate::path::parent_of;
use crate::plan::fails;
use crate::plan::link_jobs;
use crate::plan::until_failure;
use crate::rootfs::init_jobs;
use crate::rootfs::runlevel_jobs;
use crate::rootfs::CargoRootfsView;
use crate::rule::InitScript;
use crate::rule::RuleView;
use crate::text::is_hidden_name;
use crate::text::octal_value;
use crate::text::parse_mode;
use crate::text::unsigned_part;
use crate::trace::chosen_source;
use crate::trace::copy_trace;
use crate::trace::done;
use crate::trace::failed;
use crate::trace::followed_by;
use crate::trace::job_trace;
use crate::trace::jobs_trace;
use crate::trace::lemma_followed_by_assoc;
use crate::trace::lemma_jobs_trace_concat;
use crate::trace::lemma_jobs_trace_single;
use crate::trace::mode_ops;
use crate::trace::walk_trace;
use crate::trace::Disk;
use crate::trace::End;
use crate::trace::Trace;

verus! {

/// Whether every link of the list is created right after the entry at its
/// path was removed.
pub open spec fn links_replace(jobs: Seq<JobView>) -> bool {
    forall|k: int|
        0 <= k < jobs.len() ==> (#[trigger] jobs[k] matches JobView::Apply(
            FsOpView::Symlink { original, link },
        ) ==> k > 0 && jobs[k - 1] == JobView::Apply(FsOpView::RemoveFile { path: link }))
}

/// Whether the list holds no failure but as its last job.
pub open spec fn fails_last(jobs: Seq<JobView>) -> bool {
    forall|k: int| 0 <= k < jobs.len() - 1 ==> !(#[trigger] jobs[k] is Fail)
}

/// Two lists in a row keep their links replacing.
pub proof fn lemma_links_replace_concat(first: Seq<JobView>, second: Seq<JobView>)
    requires
        links_replace(first),
        links_replace(second),
    ensures
        links_replace(first + second),
{
    let both = first + second;
    assert forall|k: int| 0 <= k < both.len() implies (#[trigger] both[k] matches JobView::Apply(
        FsOpView::Symlink { original, link },
    ) ==> k > 0 && both[k - 1] == JobView::Apply(FsOpView::RemoveFile { path: link })) by {
        if k < first.len() {
            assert(both[k] == first[k]);
            if k > 0 {
                assert(both[k - 1] == first[k - 1]);
            }
        } else {
            let j = k - first.len();
            assert(both[k] == second[j]);
            if j > 0 {
                assert(both[k - 1] == second[j - 1]);
            }
        }
    }
}

/// The jobs that put a link in place remove the entry at its path right
/// before they create it, and fail nowhere.
pub proof fn lemma_link_jobs(original: Seq<char>, link: Seq<char>, parent: Option<Seq<char>>)
    ensures
        links_replace(link_jobs(original, link, parent)),
        fails_last(link_jobs(original, link, parent)),
        !fails(link_jobs(original, link, parent)),
        link_jobs(original, link, parent).len() >= 2,
        link_jobs(original, link, parent).last() == JobView::Apply(
            FsOpView::Symlink { original, link },
        ),
        link_jobs(original, link, parent)[link_jobs(original, link, parent).len() - 2]
            == JobView::Apply(FsOpView::RemoveFile { path: link }),
{
}

/// The jobs that order a service script replace every link they create,
/// and fail nowhere.
pub proof fn lemma_init_jobs(root: Seq<char>, name: Seq<char>, init: InitScript)
    ensures
        links_replace(init_jobs(root, name, init)),
        forall|k: int|
            0 <= k < init_jobs(root, name, init).len() ==> !(#[trigger] init_jobs(
                root,
                name,
                init,
            )[k] is Fail),
{
    let reference = joined("../init.d"@, name);
    let start = match init.start {
        Some(order) => runlevel_jobs(root, "etc/rc1.d"@, "S"@, order, name, reference),
        None => Seq::empty(),
    };
    let stop = match init.stop {
        Some(order) => runlevel_jobs(root, "etc/rc6.d"@, "K"@, order, name, reference),
        None => Seq::empty(),
    };
    assert(links_replace(start));
    assert(links_replace(stop));
    lemma_links_replace_concat(start, stop);
    assert forall|k: int| 0 <= k < (start + stop).len() implies !(#[trigger] (start + stop)[k]
        is Fail) by {
        if k < start.len() {
            assert((start + stop)[k] == start[k]);
        } else {
            assert((start + stop)[k] == stop[k - start.len()]);
        }
    }
}

/// Whatever a rule asks for, every link that its jobs create replaces what
/// was at its path: the entry there is removed right before. The jobs of a
/// rule hold no failure but as their last job.
pub proof fn lemma_rule_jobs(
    run: CargoRootfsView,
    package: PackageView,
    index: usize,
    rule: RuleView,
)
    ensures
        links_replace(run.rule_jobs(package, index, rule)),
        fails_last(run.rule_jobs(package, index, rule)),
{
    let jobs = run.rule_jobs(package, index, rule);
    if rule.root_crate_symlink == Some(true) {
    } else if rule.source is None || rule.destination is None {
    } else if rule.permissions is Some && parse_mode(rule.permissions->0) is None {
    } else {
        let target = run.destination_file(rule.destination->0);
        if rule.symbolic == Some(true) {
            lemma_link_jobs(rule.source->0, target, parent_of(target));
        } else {
            let install = seq![jobs[0]];
            match rule.init {
                None => {
                    assert(jobs =~= install);
                },
                Some(init) => match file_name_of(target) {
                    Some(name) => {
                        let links = init_jobs(run.dst, name, init);
                        lemma_init_jobs(run.dst, name, init);
                        assert(jobs =~= install + links);
                        assert(links_replace(install));
                        lemma_links_replace_concat(install, links);
                        assert forall|k: int| 0 <= k < jobs.len() - 1 implies !(#[trigger] jobs[k]
                            is Fail) by {
                            if k > 0 {
                                assert(jobs[k] == links[k - 1]);
                            }
                        }
                    },
                    None => {},
                },
            }
        }
    }
}

/// A symbolic rule comes to a link at its destination whose text is the
/// source as written, created right after the entry at the destination was
/// removed.
pub proof fn lemma_symbolic_rule_replaces(
    run: CargoRootfsView,
    package: PackageView,
    index: usize,
    rule: RuleView,
)
    requires
        rule.root_crate_symlink != Some(true),
        rule.symbolic == Some(true),
        rule.source is Some,
        rule.destination is Some,
        rule.permissions is Some ==> parse_mode(rule.permissions->0) is Some,
    ensures
        ({
            let jobs = run.rule_jobs(package, index, rule);
            let link = run.destination_file(rule.destination->0);
            &&& jobs.len() >= 2
            &&& jobs[jobs.len() - 2] == JobView::Apply(FsOpView::RemoveFile { path: link })
            &&& jobs[jobs.len() - 1] == JobView::Apply(
                FsOpView::Symlink { original: rule.source->0, link },
            )
        }),
{
    let link = run.destination_file(rule.destination->0);
    lemma_link_jobs(rule.source->0, link, parent_of(link));
}

/// Plans that are put together keep what holds of each: links replace, and
/// no failure stands but at the end.
pub proof fn lemma_until_failure_keeps(lists: Seq<Seq<JobView>>)
    requires
        forall|k: int| 0 <= k < lists.len() ==> links_replace(#[trigger] lists[k]),
        forall|k: int| 0 <= k < lists.len() ==> fails_last(#[trigger] lists[k]),
    ensures
        links_replace(until_failure(lists)),
        fails_last(until_failure(lists)),
    decreases lists.len(),
{
    if lists.len() == 0 {
    } else if fails(lists[0]) {
    } else {
        let head = lists[0];
        let tail = lists.drop_first();
        assert forall|k: int| 0 <= k < tail.len() implies links_replace(#[trigger] tail[k]) by {
            assert(tail[k] == lists[k + 1]);
        }
        assert forall|k: int| 0 <= k < tail.len() implies fails_last(#[trigger] tail[k]) by {
            assert(tail[k] == lists[k + 1]);
        }
        lemma_until_failure_keeps(tail);
        let rest = until_failure(tail);
        lemma_links_replace_concat(head, rest);
        let all = head + rest;
        assert forall|k: int| 0 <= k < all.len() - 1 implies !(#[trigger] all[k] is Fail) by {
            if k < head.len() {
                assert(all[k] == head[k]);
                if k == head.len() - 1 {
                    assert(head.last() == head[k]);
                }
            } else {
                assert(all[k] == rest[k - head.len()]);
            }
        }
    }
}

/// In the plan of a package, every link replaces what was at its path, and
/// nothing is planned behind a failure.
pub proof fn lemma_package_jobs(run: CargoRootfsView, package: PackageView)
    ensures
        links_replace(run.package_jobs(package)),
        fails_last(run.package_jobs(package)),
{
    let lists = run.entry_lists(package);
    assert forall|k: int| 0 <= k < lists.len() implies links_replace(#[trigger] lists[k])
        && fails_last(lists[k]) by {
        match package.rootfs[k] {
            RuleEntryView::Rule(rule) => {
                lemma_rule_jobs(run, package, k as usize, rule);
            },
            RuleEntryView::Malformed { detail } => {},
        }
    }
    lemma_until_failure_keeps(lists);
}

/// In the plan of the whole dependency graph, every link replaces what was
/// at its path, and nothing is planned behind a failure.
pub proof fn lemma_dependency_jobs(run: CargoRootfsView)
    ensures
        links_replace(run.dependency_jobs()),
        fails_last(run.dependency_jobs()),
{
    match run.metadata.resolve {
        None => {},
        Some(graph) => {
            let lists = run.node_lists(graph.nodes);
            assert forall|k: int| 0 <= k < lists.len() implies links_replace(#[trigger] lists[k])
                && fails_last(lists[k]) by {
                match run.metadata.package(graph.nodes[k]) {
                    Some(package) => {
                        lemma_package_jobs(run, package);
                    },
                    None => {},
                }
            }
            lemma_until_failure_keeps(lists);
        },
    }
}

/// No target builds an executable exactly where there is no first one.
pub proof fn lemma_no_binary(targets: Seq<TargetView>)
    ensures
        first_binary(targets) is None <==> forall|t: int|
            0 <= t < targets.len() ==> !(#[trigger] targets[t]).is_binary(),
    decreases targets.len(),
{
    if targets.len() > 0 {
        let tail = targets.drop_first();
        lemma_no_binary(tail);
        if !targets[0].is_binary() {
            if first_binary(tail) is None {
                assert forall|t: int| 0 <= t < targets.len() implies !(#[trigger] targets[t])
                    .is_binary() by {
                    if t > 0 {
                        assert(targets[t] == tail[t - 1]);
                    }
                }
            } else {
                let t = choose|t: int| 0 <= t < tail.len() && (#[trigger] tail[t]).is_binary();
                assert(targets[t + 1] == tail[t]);
            }
        }
    }
}

/// Aliasing the root package's binary does nothing for the root package
/// itself.
pub proof fn lemma_alias_of_root_is_nothing(run: CargoRootfsView, package: PackageView)
    requires
        run.root_package() matches Ok(root) && root.name == package.name,
    ensures
        run.alias_jobs(package) == Seq::<JobView>::empty(),
{
}

/// Aliasing the root package's binary does nothing where the root package
/// has no target that builds an executable.
pub proof fn lemma_alias_without_root_binary_is_nothing(
    run: CargoRootfsView,
    package: PackageView,
)
    requires
        run.root_package() matches Ok(root) && forall|t: int|
            0 <= t < root.targets.len() ==> !(#[trigger] root.targets[t]).is_binary(),
    ensures
        run.alias_jobs(package) == Seq::<JobView>::empty(),
{
    lemma_no_binary(run.root_package()->Ok_0.targets);
}

/// The text `755` denotes the mode `rwxr-xr-x`, and `644` the mode
/// `rw-r--r--`.
pub proof fn lemma_common_modes()
    ensures
        parse_mode("755"@) == Some(0o755u32),
        parse_mode("644"@) == Some(0o644u32),
{
    reveal_strlit("755");
    reveal_strlit("644");
    reveal_with_fuel(octal_value, 4);
    let a = "755"@;
    assert(unsigned_part(a) == a);
    assert(a.drop_last() =~= seq!['7', '5']);
    assert(a.drop_last().drop_last() =~= seq!['7']);
    assert(a.drop_last().drop_last().drop_last() =~= Seq::<char>::empty());
    assert(octal_value(a) == 493);
    let b = "644"@;
    assert(unsigned_part(b) == b);
    assert(b.drop_last() =~= seq!['6', '4']);
    assert(b.drop_last().drop_last() =~= seq!['6']);
    assert(b.drop_last().drop_last().drop_last() =~= Seq::<char>::empty());
    assert(octal_value(b) == 420);
}

/// A rule that copies and names permissions installs with exactly the mode
/// that the permissions denote.
pub proof fn lemma_copy_rule_mode(
    run: CargoRootfsView,
    package: PackageView,
    index: usize,
    rule: RuleView,
    mode: u32,
)
    requires
        rule.root_crate_symlink != Some(true),
        rule.symbolic != Some(true),
        rule.source is Some,
        rule.destination is Some,
        rule.permissions matches Some(text) && parse_mode(text) == Some(mode),
    ensures
        run.rule_jobs(package, index, rule).len() > 0,
        run.rule_jobs(package, index, rule)[0] matches JobView::Install {
            package: _,
            alt: _,
            src: _,
            dst,
            mode: planned,
        } && planned == Some(mode) && dst == run.destination_file(rule.destination->0),
{
}

/// A file that is copied with a mode gets exactly that mode, whatever mode
/// the source has: the mode is set after the copy, as the last operation.
pub proof fn lemma_file_gets_its_mode(
    disk: Disk,
    src: Seq<char>,
    dst: Seq<char>,
    mode: u32,
    depth: u32,
)
    requires
        depth <= MAX_DEPTH,
        (disk.kind)(src) == NodeKind::File,
        parent_of(dst) is Some,
    ensures
        copy_trace(disk, src, dst, Some(mode), depth) == done(
            seq![
                FsOpView::CreateDirAll { path: parent_of(dst)->0 },
                FsOpView::CopyFile { src, dst },
                FsOpView::SetPermissions { path: dst, mode },
            ],
        ),
{
    assert(seq![
        FsOpView::CreateDirAll { path: parent_of(dst)->0 },
        FsOpView::CopyFile { src, dst },
    ] + mode_ops(dst, Some(mode)) =~= seq![
        FsOpView::CreateDirAll { path: parent_of(dst)->0 },
        FsOpView::CopyFile { src, dst },
        FsOpView::SetPermissions { path: dst, mode },
    ]);
}

/// A copy deeper than the limit fails for its depth, whatever lies at its
/// source. A copy at the limit does not: it goes by what lies at its source,
/// and a file is copied.
pub proof fn lemma_depth_limit(
    disk: Disk,
    src: Seq<char>,
    dst: Seq<char>,
    mode: Option<u32>,
    depth: u32,
)
    ensures
        MAX_DEPTH == 20,
        depth > MAX_DEPTH ==> copy_trace(disk, src, dst, mode, depth) == failed(
            InstallErrorView::RecursionLimit { path: src },
        ),
        depth <= MAX_DEPTH && (disk.kind)(src) == NodeKind::File && parent_of(dst) is Some
            ==> copy_trace(disk, src, dst, mode, depth).end == End::Done,
        depth <= MAX_DEPTH && (disk.kind)(src) == NodeKind::Other ==> copy_trace(
            disk,
            src,
            dst,
            mode,
            depth,
        ) == failed(InstallErrorView::ArtifactNotFound { path: src }),
{
}

/// The installer asks nothing of a copy deeper than the limit: it ends the
/// run. A copy at the limit is asked about like any other.
pub proof fn lemma_depth_limit_at_dispatch(
    src: Seq<char>,
    dst: Seq<char>,
    mode: Option<u32>,
    depth: u32,
    rest: Seq<JobView>,
)
    ensures
        ({
            let (next, action) = dispatch(seq![JobView::Copy { src, dst, mode, depth }] + rest);
            if depth > MAX_DEPTH {
                action == ActionView::Abort(InstallErrorView::RecursionLimit { path: src })
                    && next.stopped
            } else {
                action == (ActionView::Probe { path: src }) && !next.stopped && next.pending == rest
            }
        }),
{
    let pending = seq![JobView::Copy { src, dst, mode, depth }] + rest;
    assert(pending.drop_first() =~= rest);
}

/// Walking two listings in a row is walking the one and then the other.
pub proof fn lemma_walk_trace_concat(
    disk: Disk,
    first: Seq<Seq<char>>,
    second: Seq<Seq<char>>,
    src: Seq<char>,
    dst: Seq<char>,
    mode: Option<u32>,
    depth: u32,
)
    ensures
        walk_trace(disk, first + second, src, dst, mode, depth) == followed_by(
            walk_trace(disk, first, src, dst, mode, depth),
            walk_trace(disk, second, src, dst, mode, depth),
        ),
    decreases first.len(),
{
    let whole = first + second;
    if first.len() == 0 {
        assert(whole =~= second);
        let t = walk_trace(disk, second, src, dst, mode, depth);
        assert(Seq::<FsOpView>::empty() + t.ops =~= t.ops);
    } else {
        assert(whole[0] == first[0]);
        assert(whole.drop_first() =~= first.drop_first() + second);
        lemma_walk_trace_concat(disk, first.drop_first(), second, src, dst, mode, depth);
        if !is_hidden_name(first[0]) {
            lemma_followed_by_assoc(
                copy_trace(
                    disk,
                    joined(src, first[0]),
                    joined(dst, first[0]),
                    mode,
                    next_depth(depth),
                ),
                walk_trace(disk, first.drop_first(), src, dst, mode, depth),
                walk_trace(disk, second, src, dst, mode, depth),
            );
        }
    }
}

/// Hidden entries leave no trace, at whatever depth: walking a listing is
/// walking its names that are not hidden.
pub proof fn lemma_hidden_entries_leave_no_trace(
    disk: Disk,
    names: Seq<Seq<char>>,
    src: Seq<char>,
    dst: Seq<char>,
    mode: Option<u32>,
    depth: u32,
)
    ensures
        walk_trace(disk, names, src, dst, mode, depth) == walk_trace(
            disk,
            visible(names),
            src,
            dst,
            mode,
            depth,
        ),
    decreases names.len(),
{
    reveal(Seq::filter);
    if names.len() > 0 {
        let init = names.drop_last();
        let last = seq![names.last()];
        assert(names =~= init + last);
        lemma_hidden_entries_leave_no_trace(disk, init, src, dst, mode, depth);
        lemma_walk_trace_concat(disk, init, last, src, dst, mode, depth);
        assert(last.drop_first() =~= Seq::<Seq<char>>::empty());
        assert(last[0] == names.last());
        let whole = walk_trace(disk, names, src, dst, mode, depth);
        let before = walk_trace(disk, init, src, dst, mode, depth);
        let after = walk_trace(disk, last, src, dst, mode, depth);
        assert(whole == followed_by(before, after));
        if is_hidden_name(names.last()) {
            assert(visible(names) == visible(init));
            assert(walk_trace(disk, last.drop_first(), src, dst, mode, depth) == done(
                Seq::empty(),
            ));
            assert(after == done(Seq::empty()));
            assert(before.ops + Seq::<FsOpView>::empty() =~= before.ops);
            assert(whole == before);
        } else {
            assert(visible(names) =~= visible(init) + last);
            lemma_walk_trace_concat(disk, visible(init), last, src, dst, mode, depth);
        }
    } else {
        assert(visible(names) =~= names);
    }
}

/// A directory is copied as a tree: the directory is made and given the
/// mode, and then every entry that is not hidden is copied in its turn from
/// below the source to the same name below the destination.
pub proof fn lemma_directory_is_copied_as_a_tree(
    disk: Disk,
    src: Seq<char>,
    dst: Seq<char>,
    mode: Option<u32>,
    depth: u32,
)
    requires
        depth <= MAX_DEPTH,
        (disk.kind)(src) == NodeKind::Dir,
    ensures
        copy_trace(disk, src, dst, mode, depth) == followed_by(
            done(seq![FsOpView::CreateDirAll { path: dst }] + mode_ops(dst, mode)),
            walk_trace(disk, visible((disk.entries)(src)), src, dst, mode, depth),
        ),
{
    lemma_hidden_entries_leave_no_trace(disk, (disk.entries)(src), src, dst, mode, depth);
}

/// Whether every link among the operations is created right after the
/// entry at its path was removed.
pub open spec fn ops_replace_links(ops: Seq<FsOpView>) -> bool {
    forall|k: int|
        0 <= k < ops.len() ==> (#[trigger] ops[k] matches FsOpView::Symlink { original, link }
            ==> k > 0 && ops[k - 1] == (FsOpView::RemoveFile { path: link }))
}

/// Whether no operation creates a link.
pub open spec fn no_links(ops: Seq<FsOpView>) -> bool {
    forall|k: int| 0 <= k < ops.len() ==> !(#[trigger] ops[k] is Symlink)
}

/// One run after another creates no link where neither does.
proof fn lemma_no_links_followed_by(first: Trace, second: Trace)
    requires
        no_links(first.ops),
        no_links(second.ops),
    ensures
        no_links(followed_by(first, second).ops),
{
    let ops = followed_by(first, second).ops;
    assert forall|k: int| 0 <= k < ops.len() implies !(#[trigger] ops[k] is Symlink) by {
        if first.end is Done {
            if k < first.ops.len() {
                assert(ops[k] == first.ops[k]);
            } else {
                assert(ops[k] == second.ops[k - first.ops.len()]);
            }
        }
    }
}

/// Copying a file or a tree creates no link.
pub proof fn lemma_copy_creates_no_link(
    disk: Disk,
    src: Seq<char>,
    dst: Seq<char>,
    mode: Option<u32>,
    depth: u32,
)
    ensures
        no_links(copy_trace(disk, src, dst, mode, depth).ops),
    decreases
            (if depth > MAX_DEPTH {
                0
            } else {
                2 * (MAX_DEPTH - depth) + 2
            }),
            0nat,
{
    if depth <= MAX_DEPTH && (disk.kind)(src) == NodeKind::Dir {
        lemma_walk_creates_no_link(disk, (disk.entries)(src), src, dst, mode, depth);
        lemma_no_links_followed_by(
            done(seq![FsOpView::CreateDirAll { path: dst }] + mode_ops(dst, mode)),
            walk_trace(disk, (disk.entries)(src), src, dst, mode, depth),
        );
    }
}

/// Copying the entries of a directory creates no link.
pub proof fn lemma_walk_creates_no_link(
    disk: Disk,
    names: Seq<Seq<char>>,
    src: Seq<char>,
    dst: Seq<char>,
    mode: Option<u32>,
    depth: u32,
)
    ensures
        no_links(walk_trace(disk, names, src, dst, mode, depth).ops),
    decreases
            (if depth > MAX_DEPTH {
                1
            } else {
                2 * (MAX_DEPTH - depth) + 1
            }),
            names.len(),
{
    if names.len() > 0 {
        lemma_walk_creates_no_link(disk, names.drop_first(), src, dst, mode, depth);
        if !is_hidden_name(names[0]) {
            lemma_copy_creates_no_link(
                disk,
                joined(src, names[0]),
                joined(dst, names[0]),
                mode,
                next_depth(depth),
            );
            lemma_no_links_followed_by(
                copy_trace(
                    disk,
                    joined(src, names[0]),
                    joined(dst, names[0]),
                    mode,
                    next_depth(depth),
                ),
                walk_trace(disk, names.drop_first(), src, dst, mode, depth),
            );
        }
    }
}

/// A job that is no operation creates no link.
proof fn lemma_job_creates_no_link(disk: Disk, job: JobView)
    requires
        !(job is Apply),
    ensures
        no_links(job_trace(disk, job).ops),
{
    match job {
        JobView::Copy { src, dst, mode, depth } => {
            lemma_copy_creates_no_link(disk, src, dst, mode, depth);
        },
        JobView::Walk { src, dst, mode, depth } => {
            lemma_walk_creates_no_link(disk, (disk.entries)(src), src, dst, mode, depth);
        },
        JobView::Install { package, alt, src, dst, mode } => {
            match chosen_source(disk, alt, src) {
                Some(chosen) => {
                    lemma_copy_creates_no_link(disk, chosen, dst, mode, 0);
                },
                None => {},
            }
        },
        _ => {},
    }
}

/// Where a list of jobs ends in an operation and its run is done, the run
/// ends in that operation.
proof fn lemma_run_ends_in_last_operation(disk: Disk, jobs: Seq<JobView>, op: FsOpView)
    requires
        jobs.len() > 0,
        jobs.last() == JobView::Apply(op),
        jobs_trace(disk, jobs).end is Done,
    ensures
        jobs_trace(disk, jobs).ops.len() > 0,
        jobs_trace(disk, jobs).ops.last() == op,
{
    let init = jobs.drop_last();
    assert(jobs =~= init + seq![jobs.last()]);
    lemma_jobs_trace_concat(disk, init, seq![jobs.last()]);
    lemma_jobs_trace_single(disk, jobs.last());
}

/// In the run of a plan whose links replace, every link that the caller is
/// asked to create comes right after the request to remove the entry at its
/// path, whatever lies on disk.
pub proof fn lemma_run_replaces_links(disk: Disk, jobs: Seq<JobView>)
    requires
        links_replace(jobs),
    ensures
        ops_replace_links(jobs_trace(disk, jobs).ops),
    decreases jobs.len(),
{
    if jobs.len() > 0 {
        let init = jobs.drop_last();
        let last = jobs.last();
        assert(jobs =~= init + seq![last]);
        assert forall|k: int| 0 <= k < init.len() implies (#[trigger] init[k] matches JobView::Apply(
            FsOpView::Symlink { original, link },
        ) ==> k > 0 && init[k - 1] == JobView::Apply(FsOpView::RemoveFile { path: link })) by {
            assert(init[k] == jobs[k]);
            if k > 0 {
                assert(init[k - 1] == jobs[k - 1]);
            }
        }
        lemma_run_replaces_links(disk, init);
        lemma_jobs_trace_concat(disk, init, seq![last]);
        lemma_jobs_trace_single(disk, last);
        let before = jobs_trace(disk, init);
        let after = job_trace(disk, last);
        let ops = jobs_trace(disk, jobs).ops;
        if before.end is Done {
            if !(last is Apply) {
                lemma_job_creates_no_link(disk, last);
            }
            assert forall|k: int| 0 <= k < ops.len() implies (#[trigger] ops[k] matches FsOpView::Symlink {
                original,
                link,
            } ==> k > 0 && ops[k - 1] == (FsOpView::RemoveFile { path: link })) by {
                if k < before.ops.len() {
                    assert(ops[k] == before.ops[k]);
                    if k > 0 {
                        assert(ops[k - 1] == before.ops[k - 1]);
                    }
                } else {
                    assert(ops[k] == after.ops[k - before.ops.len()]);
                    if let FsOpView::Symlink { original, link } = ops[k] {
                        assert(last is Apply);
                        assert(k == before.ops.len());
                        assert(jobs[jobs.len() - 1] == last);
                        assert(init.len() > 0);
                        assert(init.last() == jobs[jobs.len() - 2]);
                        lemma_run_ends_in_last_operation(
                            disk,
                            init,
                            FsOpView::RemoveFile { path: link },
                        );
                        assert(ops[k - 1] == before.ops[k - 1]);
                    }
                }
            }
        }
    }
}

/// In the run of the plan of the dependency graph, every link that the
/// caller is asked to create comes right after the request to remove the
/// entry at its path.
pub proof fn lemma_dependencies_replace_links(disk: Disk, run: CargoRootfsView)
    ensures
        ops_replace_links(jobs_trace(disk, run.dependency_jobs()).ops),
{
    lemma_dependency_jobs(run);
    lemma_run_replaces_links(disk, run.dependency_jobs());
}

} // verus!
