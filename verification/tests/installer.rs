use std::collections::HashMap;

use cargo_rootfs::installer::Action;
use cargo_rootfs::installer::Installer;
use cargo_rootfs::installer::NodeKind;
use cargo_rootfs::installer::Reply;
use cargo_rootfs::installer::plan_children;
use cargo_rootfs::installer::MAX_DEPTH;
use cargo_rootfs::model::Metadata;
use cargo_rootfs::model::Package;
use cargo_rootfs::model::Resolve;
use cargo_rootfs::model::RuleEntry;
use cargo_rootfs::ops::FsOp;
use cargo_rootfs::ops::InstallError;
use cargo_rootfs::ops::Job;
use cargo_rootfs::rootfs::Command;
use cargo_rootfs::CargoRootfs;
use cargo_rootfs::CargoRootfsRule;
use cargo_rootfs::InitScript;

fn s(text: &str) -> String {
    text.to_string()
}

/// A source tree to answer from: files, and directories with their entries
/// as listed.
struct Disk {
    files: Vec<String>,
    dirs: HashMap<String, Vec<String>>,
}

impl Disk {
    fn new() -> Disk {
        Disk { files: Vec::new(), dirs: HashMap::new() }
    }

    fn file(mut self, path: &str) -> Disk {
        self.files.push(s(path));
        self
    }

    fn dir(mut self, path: &str, entries: &[&str]) -> Disk {
        self.dirs.insert(s(path), entries.iter().map(|e| s(e)).collect());
        self
    }

    fn kind(&self, path: &str) -> NodeKind {
        if self.files.iter().any(|f| f == path) {
            NodeKind::File
        } else if self.dirs.contains_key(path) {
            NodeKind::Dir
        } else {
            NodeKind::Other
        }
    }
}

/// What a run came to: the questions and operations in their order, and the
/// error that ended it, if any.
#[derive(Debug, PartialEq)]
struct Outcome {
    ops: Vec<FsOp>,
    asked: Vec<String>,
    error: Option<InstallError>,
}

fn run(disk: &Disk, jobs: Vec<Job>) -> Outcome {
    let mut outcome = Outcome { ops: Vec::new(), asked: Vec::new(), error: None };
    let mut installer = Installer::new(jobs);
    let mut reply = Reply::Done;
    for _ in 0..10_000 {
        let (next, action) = installer.step(reply);
        installer = next;
        reply = match action {
            Action::Probe { path } => {
                let kind = disk.kind(&path);
                outcome.asked.push(format!("probe {path}"));
                Reply::Kind(kind)
            }
            Action::Exists { path } => {
                let found = disk.kind(&path) != NodeKind::Other;
                outcome.asked.push(format!("exists {path}"));
                Reply::Found(found)
            }
            Action::List { path } => {
                let names = disk.dirs.get(&path).cloned().unwrap_or_default();
                outcome.asked.push(format!("list {path}"));
                Reply::Entries(names)
            }
            Action::Apply(op) => {
                outcome.ops.push(op);
                Reply::Done
            }
            Action::Finished => return outcome,
            Action::Abort(error) => {
                outcome.error = Some(error);
                return outcome;
            }
        };
    }
    panic!("the run does not end");
}

fn mkdir(path: &str) -> FsOp {
    FsOp::CreateDirAll { path: s(path) }
}

fn copy(src: &str, dst: &str) -> FsOp {
    FsOp::CopyFile { src: s(src), dst: s(dst) }
}

fn chmod(path: &str, mode: u32) -> FsOp {
    FsOp::SetPermissions { path: s(path), mode }
}

fn remove(path: &str) -> FsOp {
    FsOp::RemoveFile { path: s(path) }
}

fn symlink(original: &str, link: &str) -> FsOp {
    FsOp::Symlink { original: s(original), link: s(link) }
}

fn copy_job(src: &str, dst: &str, mode: Option<u32>, depth: u32) -> Job {
    Job::Copy { src: s(src), dst: s(dst), mode, depth }
}

fn foo_with(rules: Vec<CargoRootfsRule>, altsrc: Option<&str>) -> CargoRootfs {
    let foo = Package {
        id: s("foo 0.1.0"),
        name: s("foo"),
        manifest_path: s("/work/foo/Cargo.toml"),
        targets: vec![],
        rootfs: rules.into_iter().map(RuleEntry::Rule).collect(),
    };
    CargoRootfs {
        command: Command::Install,
        dst: s("/rootfs"),
        altsrc: altsrc.map(s),
        metadata: Metadata {
            packages: vec![foo],
            workspace_members: vec![s("foo 0.1.0")],
            resolve: Some(Resolve { root: Some(s("foo 0.1.0")), nodes: vec![s("foo 0.1.0")] }),
            target_directory: s("/work/target"),
        },
        outdir: s("/work/target/release"),
    }
}

fn rule(source: &str, destination: &str) -> CargoRootfsRule {
    CargoRootfsRule {
        destination: Some(s(destination)),
        source: Some(s(source)),
        permissions: None,
        symbolic: None,
        root_crate_symlink: None,
        init: None,
    }
}

#[test]
fn nothing_to_do_is_finished_at_once() {
    let (installer, action) = Installer::new(vec![]).step(Reply::Done);
    assert_eq!(action, Action::Finished);
    let (_, again) = installer.step(Reply::Done);
    assert_eq!(again, Action::Finished);
}

#[test]
fn operations_are_handed_out_in_order() {
    let jobs = vec![Job::Apply(mkdir("/a")), Job::Apply(remove("/a/b")), Job::Apply(symlink("x", "/a/b"))];
    let outcome = run(&Disk::new(), jobs);
    assert_eq!(outcome.ops, vec![mkdir("/a"), remove("/a/b"), symlink("x", "/a/b")]);
    assert_eq!(outcome.asked, Vec::<String>::new());
    assert_eq!(outcome.error, None);
}

#[test]
fn file_is_copied_then_given_its_mode() {
    let disk = Disk::new().file("/src/app.conf");
    let outcome = run(&disk, vec![copy_job("/src/app.conf", "/rootfs/etc/app/app.conf", Some(0o644), 0)]);
    assert_eq!(
        outcome.ops,
        vec![
            mkdir("/rootfs/etc/app"),
            copy("/src/app.conf", "/rootfs/etc/app/app.conf"),
            chmod("/rootfs/etc/app/app.conf", 0o644),
        ]
    );
    assert_eq!(outcome.asked, vec![s("probe /src/app.conf")]);
    assert_eq!(outcome.error, None);
}

#[test]
fn file_without_mode_gets_none() {
    let disk = Disk::new().file("/src/a");
    let outcome = run(&disk, vec![copy_job("/src/a", "/rootfs/a", None, 0)]);
    assert_eq!(outcome.ops, vec![mkdir("/rootfs"), copy("/src/a", "/rootfs/a")]);
    assert_eq!(outcome.error, None);
}

#[test]
fn missing_artifact_ends_the_run() {
    let disk = Disk::new().file("/src/a");
    let jobs = vec![
        copy_job("/src/a", "/rootfs/a", None, 0),
        copy_job("/src/gone", "/rootfs/gone", None, 0),
        copy_job("/src/a", "/rootfs/never", None, 0),
    ];
    let outcome = run(&disk, jobs);
    assert_eq!(outcome.ops, vec![mkdir("/rootfs"), copy("/src/a", "/rootfs/a")]);
    assert_eq!(outcome.error, Some(InstallError::ArtifactNotFound { path: s("/src/gone") }));
}

#[test]
fn file_at_the_root_has_no_parent() {
    let disk = Disk::new().file("/src/a");
    let outcome = run(&disk, vec![copy_job("/src/a", "/", None, 0)]);
    assert_eq!(outcome.ops, vec![]);
    assert_eq!(outcome.error, Some(InstallError::NoParentDirectory { path: s("/") }));
}

#[test]
fn directory_tree_is_copied_without_hidden_entries() {
    let disk = Disk::new()
        .dir("/src/conf", &["b.conf", ".git", "sub", "a.conf", ".hidden.conf"])
        .file("/src/conf/b.conf")
        .file("/src/conf/a.conf")
        .file("/src/conf/.hidden.conf")
        .dir("/src/conf/.git", &["HEAD"])
        .file("/src/conf/.git/HEAD")
        .dir("/src/conf/sub", &[".keep", "deep", "x"])
        .file("/src/conf/sub/.keep")
        .file("/src/conf/sub/x")
        .dir("/src/conf/sub/deep", &[".secret", "y"])
        .file("/src/conf/sub/deep/.secret")
        .file("/src/conf/sub/deep/y");
    let outcome = run(&disk, vec![copy_job("/src/conf", "/rootfs/etc/conf", Some(0o750), 0)]);
    assert_eq!(outcome.error, None);
    assert_eq!(
        outcome.ops,
        vec![
            mkdir("/rootfs/etc/conf"),
            chmod("/rootfs/etc/conf", 0o750),
            mkdir("/rootfs/etc/conf"),
            copy("/src/conf/b.conf", "/rootfs/etc/conf/b.conf"),
            chmod("/rootfs/etc/conf/b.conf", 0o750),
            mkdir("/rootfs/etc/conf/sub"),
            chmod("/rootfs/etc/conf/sub", 0o750),
            mkdir("/rootfs/etc/conf/sub/deep"),
            chmod("/rootfs/etc/conf/sub/deep", 0o750),
            mkdir("/rootfs/etc/conf/sub/deep"),
            copy("/src/conf/sub/deep/y", "/rootfs/etc/conf/sub/deep/y"),
            chmod("/rootfs/etc/conf/sub/deep/y", 0o750),
            mkdir("/rootfs/etc/conf/sub"),
            copy("/src/conf/sub/x", "/rootfs/etc/conf/sub/x"),
            chmod("/rootfs/etc/conf/sub/x", 0o750),
            mkdir("/rootfs/etc/conf"),
            copy("/src/conf/a.conf", "/rootfs/etc/conf/a.conf"),
            chmod("/rootfs/etc/conf/a.conf", 0o750),
        ]
    );
    assert_eq!(
        outcome.asked,
        vec![
            s("probe /src/conf"),
            s("list /src/conf"),
            s("probe /src/conf/b.conf"),
            s("probe /src/conf/sub"),
            s("list /src/conf/sub"),
            s("probe /src/conf/sub/deep"),
            s("list /src/conf/sub/deep"),
            s("probe /src/conf/sub/deep/y"),
            s("probe /src/conf/sub/x"),
            s("probe /src/conf/a.conf"),
        ]
    );
}

#[test]
fn empty_directory_is_only_made() {
    let disk = Disk::new().dir("/src/empty", &[]);
    let outcome = run(&disk, vec![copy_job("/src/empty", "/rootfs/var/empty", None, 0)]);
    assert_eq!(outcome.ops, vec![mkdir("/rootfs/var/empty")]);
    assert_eq!(outcome.error, None);
}

#[test]
fn directory_of_hidden_entries_is_only_made() {
    let disk = Disk::new().dir("/src/d", &[".a", ".b"]).file("/src/d/.a").file("/src/d/.b");
    let outcome = run(&disk, vec![copy_job("/src/d", "/rootfs/d", None, 0)]);
    assert_eq!(outcome.ops, vec![mkdir("/rootfs/d")]);
    assert_eq!(outcome.asked, vec![s("probe /src/d"), s("list /src/d")]);
}

#[test]
fn children_are_one_level_deeper() {
    let names = vec![s("a"), s(".b"), s("c")];
    assert_eq!(
        plan_children(&names, "/s", "/d", Some(1), 4),
        vec![copy_job("/s/a", "/d/a", Some(1), 5), copy_job("/s/c", "/d/c", Some(1), 5)]
    );
    assert_eq!(plan_children(&names, "/s", "/d", None, u32::MAX), vec![
        copy_job("/s/a", "/d/a", None, u32::MAX),
        copy_job("/s/c", "/d/c", None, u32::MAX),
    ]);
    assert_eq!(plan_children(&vec![], "/s", "/d", None, 0), vec![]);
}

/// A chain of directories `/loop/d/d/...`, `levels` deep, each holding one
/// entry `d`; the last holds a file `d` where `file_at_end` is set, and
/// nothing otherwise.
fn chain(levels: usize, file_at_end: bool) -> Disk {
    let mut disk = Disk::new();
    let mut path = s("/loop");
    for _ in 0..levels {
        disk = disk.dir(&path, &["d"]);
        path.push_str("/d");
    }
    if file_at_end {
        disk.file(&path)
    } else {
        disk.dir(&path, &[])
    }
}

#[test]
fn depth_limit_is_twenty() {
    assert_eq!(MAX_DEPTH, 20);
}

#[test]
fn copy_at_depth_twenty_goes_through() {
    let disk = chain(20, true);
    let outcome = run(&disk, vec![copy_job("/loop", "/rootfs/loop", None, 0)]);
    assert_eq!(outcome.error, None);
    assert_eq!(outcome.ops.len(), 22);
    let deepest = format!("/rootfs/loop{}", "/d".repeat(20));
    assert_eq!(outcome.ops.last(), Some(&copy(&format!("/loop{}", "/d".repeat(20)), &deepest)));
}

#[test]
fn copy_reaching_depth_twenty_one_fails() {
    let disk = chain(21, true);
    let outcome = run(&disk, vec![copy_job("/loop", "/rootfs/loop", None, 0)]);
    assert_eq!(outcome.error, Some(InstallError::RecursionLimit { path: format!("/loop{}", "/d".repeat(21)) }));
    assert_eq!(outcome.ops.len(), 21);
    assert_eq!(outcome.asked.len(), 42);
}

#[test]
fn directory_at_depth_twenty_may_be_empty() {
    let disk = chain(20, false);
    let outcome = run(&disk, vec![copy_job("/loop", "/rootfs/loop", None, 0)]);
    assert_eq!(outcome.error, None);
    assert_eq!(outcome.ops.len(), 21);
}

#[test]
fn copy_job_beyond_the_limit_fails_unasked() {
    let disk = Disk::new().file("/src/a");
    let outcome = run(&disk, vec![copy_job("/src/a", "/rootfs/a", None, 21)]);
    assert_eq!(outcome.error, Some(InstallError::RecursionLimit { path: s("/src/a") }));
    assert_eq!(outcome.asked, Vec::<String>::new());
    let outcome = run(&disk, vec![copy_job("/src/a", "/rootfs/a", None, 20)]);
    assert_eq!(outcome.error, None);
    assert_eq!(outcome.ops, vec![mkdir("/rootfs"), copy("/src/a", "/rootfs/a")]);
}

#[test]
fn a_tree_that_loops_is_cut_off() {
    let mut disk = Disk::new();
    let mut path = s("/cycle");
    for _ in 0..40 {
        disk = disk.dir(&path, &["again"]);
        path.push_str("/again");
    }
    let outcome = run(&disk, vec![copy_job("/cycle", "/rootfs/cycle", Some(0o755), 0)]);
    assert_eq!(
        outcome.error,
        Some(InstallError::RecursionLimit { path: format!("/cycle{}", "/again".repeat(21)) })
    );
}

#[test]
fn install_prefers_the_override_where_it_exists() {
    let job = || Job::Install {
        package: s("foo"),
        alt: Some(s("/alt/foo/a")),
        src: Some(s("/work/foo/a")),
        dst: s("/rootfs/a"),
        mode: None,
    };
    let both = Disk::new().file("/alt/foo/a").file("/work/foo/a");
    let outcome = run(&both, vec![job()]);
    assert_eq!(outcome.ops, vec![mkdir("/rootfs"), copy("/alt/foo/a", "/rootfs/a")]);
    assert_eq!(outcome.asked, vec![s("exists /alt/foo/a"), s("probe /alt/foo/a")]);
    let own = Disk::new().file("/work/foo/a");
    let outcome = run(&own, vec![job()]);
    assert_eq!(outcome.ops, vec![mkdir("/rootfs"), copy("/work/foo/a", "/rootfs/a")]);
    assert_eq!(outcome.asked, vec![s("exists /alt/foo/a"), s("probe /work/foo/a")]);
    let neither = Disk::new();
    let outcome = run(&neither, vec![job()]);
    assert_eq!(outcome.error, Some(InstallError::ArtifactNotFound { path: s("/work/foo/a") }));
}

#[test]
fn install_without_override_asks_for_the_source_only() {
    let job = Job::Install { package: s("foo"), alt: None, src: Some(s("/work/foo/a")), dst: s("/rootfs/a"), mode: Some(0o600) };
    let outcome = run(&Disk::new().file("/work/foo/a"), vec![job]);
    assert_eq!(outcome.asked, vec![s("probe /work/foo/a")]);
    assert_eq!(outcome.ops, vec![mkdir("/rootfs"), copy("/work/foo/a", "/rootfs/a"), chmod("/rootfs/a", 0o600)]);
}

#[test]
fn install_without_manifest_directory_fails() {
    let job = |alt: Option<&str>| Job::Install { package: s("foo"), alt: alt.map(s), src: None, dst: s("/rootfs/a"), mode: None };
    let outcome = run(&Disk::new(), vec![job(None)]);
    assert_eq!(outcome.error, Some(InstallError::NoManifestDirectory { package: s("foo") }));
    assert_eq!(outcome.asked, Vec::<String>::new());
    let outcome = run(&Disk::new(), vec![job(Some("/alt/foo/a"))]);
    assert_eq!(outcome.error, Some(InstallError::NoManifestDirectory { package: s("foo") }));
    assert_eq!(outcome.asked, vec![s("exists /alt/foo/a")]);
    let outcome = run(&Disk::new().file("/alt/foo/a"), vec![job(Some("/alt/foo/a"))]);
    assert_eq!(outcome.error, None);
    assert_eq!(outcome.ops, vec![mkdir("/rootfs"), copy("/alt/foo/a", "/rootfs/a")]);
}

#[test]
fn failure_job_ends_the_run_where_it_stands() {
    let jobs = vec![Job::Apply(mkdir("/a")), Job::Fail(InstallError::NoRootPackage), Job::Apply(mkdir("/b"))];
    let outcome = run(&Disk::new(), jobs);
    assert_eq!(outcome.ops, vec![mkdir("/a")]);
    assert_eq!(outcome.error, Some(InstallError::NoRootPackage));
}

#[test]
fn a_stopped_run_stays_stopped() {
    let (installer, action) = Installer::new(vec![Job::Fail(InstallError::NoRootPackage), Job::Apply(mkdir("/b"))]).step(Reply::Done);
    assert_eq!(action, Action::Abort(InstallError::NoRootPackage));
    let (installer, action) = installer.step(Reply::Done);
    assert_eq!(action, Action::Abort(InstallError::Stopped));
    let (_, action) = installer.step(Reply::Kind(NodeKind::File));
    assert_eq!(action, Action::Abort(InstallError::Stopped));
}

#[test]
fn an_answer_to_another_question_ends_the_run() {
    let start = || Installer::new(vec![copy_job("/src/a", "/rootfs/a", None, 0), Job::Apply(mkdir("/b"))]);
    let (installer, action) = start().step(Reply::Done);
    assert_eq!(action, Action::Probe { path: s("/src/a") });
    let (installer, action) = installer.step(Reply::Done);
    assert_eq!(action, Action::Abort(InstallError::UnexpectedReply));
    let (_, action) = installer.step(Reply::Done);
    assert_eq!(action, Action::Abort(InstallError::Stopped));
    let (installer, _) = start().step(Reply::Done);
    assert_eq!(installer.step(Reply::Found(true)).1, Action::Abort(InstallError::UnexpectedReply));
    let (installer, _) = start().step(Reply::Done);
    assert_eq!(installer.step(Reply::Entries(vec![])).1, Action::Abort(InstallError::UnexpectedReply));
    assert_eq!(start().step(Reply::Kind(NodeKind::Dir)).1, Action::Abort(InstallError::UnexpectedReply));
    assert_eq!(Installer::new(vec![]).step(Reply::Found(false)).1, Action::Abort(InstallError::UnexpectedReply));
}

#[test]
fn walk_job_lists_its_directory() {
    let disk = Disk::new().dir("/s", &["a"]).file("/s/a");
    let outcome = run(&disk, vec![Job::Walk { src: s("/s"), dst: s("/d"), mode: None, depth: 0 }]);
    assert_eq!(outcome.asked, vec![s("list /s"), s("probe /s/a")]);
    assert_eq!(outcome.ops, vec![mkdir("/d"), copy("/s/a", "/d/a")]);
}

#[test]
fn package_rule_installs_a_file_with_its_mode() {
    let mut conf = rule("config/app.conf", "/etc/app/app.conf");
    conf.permissions = Some(s("644"));
    let engine = foo_with(vec![conf], None);
    let disk = Disk::new().file("/work/foo/config/app.conf");
    let outcome = run(&disk, engine.install_dependencies());
    assert_eq!(outcome.error, None);
    assert_eq!(
        outcome.ops,
        vec![
            mkdir("/rootfs/etc/app"),
            copy("/work/foo/config/app.conf", "/rootfs/etc/app/app.conf"),
            chmod("/rootfs/etc/app/app.conf", 0o644),
        ]
    );
}

#[test]
fn rule_with_permissions_755_sets_exactly_that_mode() {
    let mut script = rule("run.sh", "/usr/bin/run.sh");
    script.permissions = Some(s("755"));
    let engine = foo_with(vec![script], None);
    let disk = Disk::new().file("/work/foo/run.sh");
    let outcome = run(&disk, engine.install_dependencies());
    assert_eq!(outcome.ops.last(), Some(&chmod("/rootfs/usr/bin/run.sh", 0o755)));
    assert_eq!(outcome.ops.len(), 3);
}

#[test]
fn symbolic_rule_yields_a_link_with_the_unresolved_text() {
    let mut link = rule("/etc/app/app.conf", "/etc/app/current");
    link.symbolic = Some(true);
    let engine = foo_with(vec![link], None);
    let outcome = run(&Disk::new(), engine.install_dependencies());
    assert_eq!(outcome.error, None);
    assert_eq!(outcome.asked, Vec::<String>::new());
    assert_eq!(
        outcome.ops,
        vec![
            mkdir("/rootfs/etc/app"),
            remove("/rootfs/etc/app/current"),
            symlink("/etc/app/app.conf", "/rootfs/etc/app/current"),
        ]
    );
}

#[test]
fn every_link_is_preceded_by_the_removal_of_its_path() {
    let mut link = rule("target", "/etc/link");
    link.symbolic = Some(true);
    let mut service = rule("svc", "/etc/init.d/svc");
    service.init = Some(InitScript { start: Some(3), stop: Some(97) });
    let engine = foo_with(vec![link, service], None);
    let disk = Disk::new().file("/work/foo/svc");
    let outcome = run(&disk, engine.install_dependencies());
    assert_eq!(outcome.error, None);
    let mut links = 0;
    for (i, op) in outcome.ops.iter().enumerate() {
        if let FsOp::Symlink { link, .. } = op {
            links += 1;
            assert_eq!(outcome.ops[i - 1], remove(link));
        }
    }
    assert_eq!(links, 3);
}

#[test]
fn init_rule_yields_the_runlevel_links() {
    let mut service = rule("init/myservice", "/etc/init.d/myservice");
    service.init = Some(InitScript { start: Some(20), stop: Some(80) });
    let engine = foo_with(vec![service], None);
    let disk = Disk::new().file("/work/foo/init/myservice");
    let outcome = run(&disk, engine.install_dependencies());
    assert_eq!(outcome.error, None);
    assert_eq!(
        outcome.ops,
        vec![
            mkdir("/rootfs/etc/init.d"),
            copy("/work/foo/init/myservice", "/rootfs/etc/init.d/myservice"),
            mkdir("/rootfs/etc/rc1.d"),
            remove("/rootfs/etc/rc1.d/S20myservice"),
            symlink("../init.d/myservice", "/rootfs/etc/rc1.d/S20myservice"),
            mkdir("/rootfs/etc/rc6.d"),
            remove("/rootfs/etc/rc6.d/K80myservice"),
            symlink("../init.d/myservice", "/rootfs/etc/rc6.d/K80myservice"),
        ]
    );
}

#[test]
fn override_directory_is_searched_first() {
    let engine = foo_with(vec![rule("config/app.conf", "/etc/app.conf")], Some("/alt"));
    let disk = Disk::new().file("/alt/foo/config/app.conf").file("/work/foo/config/app.conf");
    let outcome = run(&disk, engine.install_dependencies());
    assert_eq!(outcome.ops, vec![mkdir("/rootfs/etc"), copy("/alt/foo/config/app.conf", "/rootfs/etc/app.conf")]);
    let disk = Disk::new().file("/work/foo/config/app.conf");
    let outcome = run(&disk, engine.install_dependencies());
    assert_eq!(outcome.ops, vec![mkdir("/rootfs/etc"), copy("/work/foo/config/app.conf", "/rootfs/etc/app.conf")]);
}

#[test]
fn a_later_rule_may_write_the_same_destination() {
    let engine = foo_with(vec![rule("one", "/etc/value"), rule("two", "/etc/value")], None);
    let disk = Disk::new().file("/work/foo/one").file("/work/foo/two");
    let outcome = run(&disk, engine.install_dependencies());
    assert_eq!(
        outcome.ops,
        vec![
            mkdir("/rootfs/etc"),
            copy("/work/foo/one", "/rootfs/etc/value"),
            mkdir("/rootfs/etc"),
            copy("/work/foo/two", "/rootfs/etc/value"),
        ]
    );
}

#[test]
fn two_runs_on_the_same_tree_do_the_same() {
    let mut link = rule("a.conf", "/etc/current");
    link.symbolic = Some(true);
    let engine = foo_with(vec![rule("conf", "/etc/conf"), link], None);
    let disk = Disk::new().dir("/work/foo/conf", &["a.conf", ".x"]).file("/work/foo/conf/a.conf");
    let first = run(&disk, engine.install_dependencies());
    let second = run(&disk, engine.install_dependencies());
    assert_eq!(first.error, None);
    assert_eq!(first, second);
}

#[test]
fn a_failing_rule_leaves_what_was_done_before() {
    let engine = foo_with(vec![rule("a", "/a"), rule("gone", "/b"), rule("c", "/c")], None);
    let disk = Disk::new().file("/work/foo/a").file("/work/foo/c");
    let outcome = run(&disk, engine.install_dependencies());
    assert_eq!(outcome.ops, vec![mkdir("/rootfs"), copy("/work/foo/a", "/rootfs/a")]);
    assert_eq!(outcome.error, Some(InstallError::ArtifactNotFound { path: s("/work/foo/gone") }));
}
