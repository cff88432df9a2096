//! The installation driver: from a workspace's metadata and the rules of its
//! packages to the jobs that install them under an install root.

use vstd::prelude::*;
use crate::model::first_binary;
use crate::model::same_text;
use crate::model::Metadata;
use crate::model::MetadataView;
use crate::model::Package;
use crate::model::PackageView;
use crate::model::RuleEntry;
use crate::model::RuleEntryView;
use crate::model::TargetView;
use crate::ops::view_of;
use crate::ops::views;
use crate::ops::FsOp;
use crate::ops::FsOpView;
use crate::ops::InstallError;
use crate::ops::InstallErrorView;
use crate::ops::Job;
use crate::ops::JobView;
use crate::path::file_name_of;
use crate::path::joined;
use crate::path::parent_of;
use crate::path::path_file_name;
use crate::path::path_join;
use crate::path::path_parent;
use crate::path::path_strip_prefix;
use crate::path::without_prefix;
use crate::plan::append_jobs;
use crate::plan::ends_in_failure;
use crate::plan::fails;
use crate::plan::lemma_until_failure_step;
use crate::plan::lemma_until_failure_stops;
use crate::plan::link_jobs;
use crate::plan::none_fails;
use crate::plan::plan_link;
use crate::plan::until_failure;
use crate::rule::CargoRootfsRule;
use crate::rule::InitScript;
use crate::rule::RuleView;
use crate::text::digits;
use crate::text::parse_mode;
use crate::text::parse_octal;
use crate::text::render_decimal;

verus! {

/// The permission bits of an installed binary or library: `rwxr-xr-x`.
pub const EXECUTABLE_MODE: u32 = 0o755;

/// What a run is asked to do.
#[derive(Clone, Copy, Debug, PartialEq, Eq, Structural)]
pub enum Command {
    /// No command was given.
    Unset,
    /// Install, keeping debug symbols.
    Install,
    /// Install, and strip the debug symbols of binaries.
    Release,
}

/// Which features of the workspace's packages the build system is to
/// activate.
#[derive(Clone, Debug, PartialEq, Eq)]
pub enum FeatureSelection {
    AllFeatures,
    NoDefaultFeatures,
    SomeFeatures(Vec<String>),
}

/// The options of a run, as given on the command line.
#[derive(Clone, Debug)]
pub struct CargoRootfsArgs {
    pub command: Command,
    /// The install root. Without it the root of the filesystem is taken.
    pub dst: Option<String>,
    /// A directory that is searched for a rule's source before the
    /// package's own directory.
    pub altsrc: Option<String>,
    /// The target triple that the build outputs were made for.
    pub target: Option<String>,
    pub all_bins_only: bool,
    pub bins_only: Vec<String>,
    pub lib_only: bool,
    pub verbose: u32,
    pub features: Vec<FeatureSelection>,
    pub manifest_path: Option<String>,
    pub lockfile_path: Option<String>,
    pub locked: bool,
    pub offline: bool,
    pub frozen: bool,
}

/// The options that are handed on to the build system beside the features
/// and the manifest path, in the order in which they are given.
pub open spec fn build_options(
    lockfile_path: Option<Seq<char>>,
    locked: bool,
    offline: bool,
    frozen: bool,
) -> Seq<Seq<char>> {
    (match lockfile_path {
        Some(path) => seq!["--lockfile-path"@, path],
        None => Seq::empty(),
    }) + (if locked {
        seq!["--locked"@]
    } else {
        Seq::empty()
    }) + (if offline {
        seq!["--offline"@]
    } else {
        Seq::empty()
    }) + (if frozen {
        seq!["--frozen"@]
    } else {
        Seq::empty()
    })
}

impl Default for CargoRootfsArgs {
    /// The options of a run of which nothing was asked.
    fn default() -> (r: CargoRootfsArgs)
        ensures
            r.command == Command::Unset,
            r.dst is None,
            r.altsrc is None,
            r.target is None,
            !r.all_bins_only,
            r.bins_only@.len() == 0,
            !r.lib_only,
            r.verbose == 0,
            r.features@.len() == 0,
            r.manifest_path is None,
            r.lockfile_path is None,
            !r.locked,
            !r.offline,
            !r.frozen,
    {
        CargoRootfsArgs {
            command: Command::Unset,
            dst: None,
            altsrc: None,
            target: None,
            all_bins_only: false,
            bins_only: Vec::new(),
            lib_only: false,
            verbose: 0,
            features: Vec::new(),
            manifest_path: None,
            lockfile_path: None,
            locked: false,
            offline: false,
            frozen: false,
        }
    }
}

impl CargoRootfsArgs {
    /// The options to hand on to the build system when asking it for the
    /// metadata.
    pub fn other_options(&self) -> (r: Vec<String>)
        ensures
            views(r@) == build_options(
                view_of(self.lockfile_path),
                self.locked,
                self.offline,
                self.frozen,
            ),
    {
        let mut r: Vec<String> = Vec::new();
        match &self.lockfile_path {
            Some(path) => {
                r.push(String::from_str("--lockfile-path"));
                r.push(path.clone());
            },
            None => {},
        }
        if self.locked {
            r.push(String::from_str("--locked"));
        }
        if self.offline {
            r.push(String::from_str("--offline"));
        }
        if self.frozen {
            r.push(String::from_str("--frozen"));
        }
        assert(views(r@) =~= build_options(
            view_of(self.lockfile_path),
            self.locked,
            self.offline,
            self.frozen,
        ));
        r
    }
}

/// A configured run: what to do, where to install, and what the build
/// system reported.
#[derive(Clone, Debug, PartialEq, Eq)]
pub struct CargoRootfs {
    pub command: Command,
    /// The install root.
    pub dst: String,
    /// The override source directory, if one is configured.
    pub altsrc: Option<String>,
    pub metadata: Metadata,
    /// The directory that holds the build outputs to install.
    pub outdir: String,
}

pub struct CargoRootfsView {
    pub command: Command,
    pub dst: Seq<char>,
    pub altsrc: Option<Seq<char>>,
    pub metadata: MetadataView,
    pub outdir: Seq<char>,
}

impl View for CargoRootfs {
    type V = CargoRootfsView;

    open spec fn view(&self) -> CargoRootfsView {
        CargoRootfsView {
            command: self.command,
            dst: self.dst@,
            altsrc: view_of(self.altsrc),
            metadata: self.metadata@,
            outdir: self.outdir@,
        }
    }
}

/// The directory of the build outputs: below the build directory, in the
/// directory of the target triple where one is known, the one asked for
/// before the one of the environment, and there in `release`.
pub open spec fn output_directory(
    target_directory: Seq<char>,
    target: Option<Seq<char>>,
    build_target: Option<Seq<char>>,
) -> Seq<char> {
    let base = match target {
        Some(triple) => joined(target_directory, triple),
        None => match build_target {
            Some(triple) => joined(target_directory, triple),
            None => target_directory,
        },
    };
    joined(base, "release"@)
}

impl CargoRootfs {
    /// Configures a run from its options and from what the build system
    /// reported. `build_target` is the target triple that the environment
    /// names, if it names one.
    pub fn new(args: &CargoRootfsArgs, metadata: Metadata, build_target: Option<String>) -> (r:
        CargoRootfs)
        ensures
            r@.command == args.command,
            r@.dst == (match args.dst {
                Some(dir) => dir@,
                None => "/"@,
            }),
            r@.altsrc == view_of(args.altsrc),
            r@.metadata == metadata@,
            r@.outdir == output_directory(
                metadata@.target_directory,
                view_of(args.target),
                view_of(build_target),
            ),
    {
        let base = match &args.target {
            Some(triple) => path_join(metadata.target_directory.as_str(), triple.as_str()),
            None => match &build_target {
                Some(triple) => path_join(metadata.target_directory.as_str(), triple.as_str()),
                None => metadata.target_directory.clone(),
            },
        };
        let outdir = path_join(base.as_str(), "release");
        let dst = match &args.dst {
            Some(dir) => dir.clone(),
            None => String::from_str("/"),
        };
        let altsrc = match &args.altsrc {
            Some(dir) => Some(dir.clone()),
            None => None,
        };
        CargoRootfs { command: args.command, dst, altsrc, metadata, outdir }
    }
}

/// Where a package keeps what a rule names as its source: below the
/// directory of the package's manifest. Nothing where the manifest path has
/// no parent.
pub open spec fn manifest_source(package: PackageView, source: Seq<char>) -> Option<Seq<char>> {
    match parent_of(package.manifest_path) {
        Some(dir) => Some(joined(dir, source)),
        None => None,
    }
}

/// The jobs that order a service script in one runlevel: in the directory
/// `runlevel` below the install root, a link named by the letter, the order
/// and the script's name, which points at `reference`. The directory is made
/// first, and the link replaces what is there.
pub open spec fn runlevel_jobs(
    root: Seq<char>,
    runlevel: Seq<char>,
    letter: Seq<char>,
    order: u32,
    name: Seq<char>,
    reference: Seq<char>,
) -> Seq<JobView> {
    let dir = joined(root, runlevel);
    let link = joined(dir, letter + digits(order as nat, 10) + name);
    link_jobs(reference, link, Some(dir))
}

/// The jobs that order the service script `name`: a start link `S<order><name>`
/// in `etc/rc1.d` and a stop link `K<order><name>` in `etc/rc6.d`, each where
/// its order is given, and each pointing at `../init.d/<name>`.
pub open spec fn init_jobs(root: Seq<char>, name: Seq<char>, init: InitScript) -> Seq<JobView> {
    let reference = joined("../init.d"@, name);
    (match init.start {
        Some(order) => runlevel_jobs(root, "etc/rc1.d"@, "S"@, order, name, reference),
        None => Seq::empty(),
    }) + (match init.stop {
        Some(order) => runlevel_jobs(root, "etc/rc6.d"@, "K"@, order, name, reference),
        None => Seq::empty(),
    })
}

impl CargoRootfsView {
    /// Where a rule's destination lies: below the install root, once the
    /// leading root of the destination is taken off.
    pub open spec fn destination_file(self, destination: Seq<char>) -> Seq<char> {
        joined(
            self.dst,
            match without_prefix(destination, "/"@) {
                Some(rest) => rest,
                None => destination,
            },
        )
    }

    /// Where the override source directory would hold a rule's source:
    /// below the directory named after the package. Nothing where no
    /// override directory is configured.
    pub open spec fn override_source(self, package: PackageView, source: Seq<char>) -> Option<
        Seq<char>,
    > {
        match self.altsrc {
            Some(dir) => Some(joined(joined(dir, package.name), source)),
            None => None,
        }
    }

    /// The root package of the dependency graph, or why there is none.
    pub open spec fn root_package(self) -> Result<PackageView, InstallErrorView> {
        match self.metadata.resolve {
            None => Err(InstallErrorView::NoDependencyGraph),
            Some(graph) => match graph.root {
                None => Err(InstallErrorView::NoRootPackage),
                Some(id) => match self.metadata.package(id) {
                    Some(package) => Ok(package),
                    None => Err(InstallErrorView::UnknownPackage { id }),
                },
            },
        }
    }

    /// The jobs of a rule that aliases the root package's binary. Nothing
    /// for the root package itself, nothing where the root package builds no
    /// binary, and nothing where the package builds none. Otherwise a link
    /// in `usr/bin`, named after the package's first binary and replacing
    /// what is there, whose text is the name of the root package's first
    /// binary. Further binaries of the package get no link.
    pub open spec fn alias_jobs(self, package: PackageView) -> Seq<JobView> {
        match self.root_package() {
            Err(error) => seq![JobView::Fail(error)],
            Ok(root) => if root.name == package.name {
                Seq::empty()
            } else {
                match (first_binary(root.targets), first_binary(package.targets)) {
                    (Some(original), Some(name)) => link_jobs(
                        original,
                        joined(joined(self.dst, "usr/bin"@), name),
                        None,
                    ),
                    _ => Seq::empty(),
                }
            },
        }
    }

    /// The jobs of one rule of a package, the first that applies:
    /// a rule that aliases the root package's binary reads no other field;
    /// any other rule needs a source, a destination and, where it names
    /// permissions, octal ones, and fails without them in this order;
    /// a symbolic rule becomes a link at the destination whose text is the
    /// source as it is written;
    /// any other rule installs the source at the destination, and then
    /// orders the installed script where the rule asks for it.
    pub open spec fn rule_jobs(self, package: PackageView, index: usize, rule: RuleView) -> Seq<
        JobView,
    > {
        if rule.root_crate_symlink == Some(true) {
            self.alias_jobs(package)
        } else if rule.source is None {
            seq![
                JobView::Fail(InstallErrorView::MissingSource { package: package.name, index }),
            ]
        } else if rule.destination is None {
            seq![
                JobView::Fail(
                    InstallErrorView::MissingDestination { package: package.name, index },
                ),
            ]
        } else if rule.permissions is Some && parse_mode(rule.permissions->0) is None {
            seq![
                JobView::Fail(
                    InstallErrorView::InvalidPermissions { package: package.name, index },
                ),
            ]
        } else {
            let source = rule.source->0;
            let target = self.destination_file(rule.destination->0);
            if rule.symbolic == Some(true) {
                link_jobs(source, target, parent_of(target))
            } else {
                seq![
                    JobView::Install {
                        package: package.name,
                        alt: self.override_source(package, source),
                        src: manifest_source(package, source),
                        dst: target,
                        mode: match rule.permissions {
                            Some(text) => parse_mode(text),
                            None => None,
                        },
                    },
                ] + (match rule.init {
                    None => Seq::empty(),
                    Some(init) => match file_name_of(target) {
                        Some(name) => init_jobs(self.dst, name, init),
                        None => seq![
                            JobView::Fail(
                                InstallErrorView::NoFileName { package: package.name, index },
                            ),
                        ],
                    },
                })
            }
        }
    }
}

/// A list of one job, which ends the run with `error`.
pub(crate) fn failure(error: InstallError) -> (jobs: Vec<Job>)
    ensures
        views(jobs@) == seq![JobView::Fail(error@)],
{
    let mut jobs: Vec<Job> = Vec::new();
    jobs.push(Job::Fail(error));
    assert(views(jobs@) =~= seq![JobView::Fail(error@)]);
    jobs
}

/// A list of no job.
pub(crate) fn nothing() -> (jobs: Vec<Job>)
    ensures
        views(jobs@) == Seq::<JobView>::empty(),
{
    let jobs: Vec<Job> = Vec::new();
    assert(views(jobs@) =~= Seq::<JobView>::empty());
    jobs
}

fn plan_runlevel(root: &str, runlevel: &str, letter: &str, order: u32, name: &str, reference: &str) -> (jobs:
    Vec<Job>)
    ensures
        views(jobs@) == runlevel_jobs(root@, runlevel@, letter@, order, name@, reference@),
{
    let dir = path_join(root, runlevel);
    let mut link_name = String::from_str(letter);
    let number = render_decimal(order);
    link_name.append(number.as_str());
    link_name.append(name);
    let link = path_join(dir.as_str(), link_name.as_str());
    plan_link(reference, link, Some(dir))
}

impl CargoRootfs {
    /// The root package of the dependency graph.
    pub fn get_root_package(&self) -> (r: Result<&Package, InstallError>)
        ensures
            match r {
                Ok(package) => self@.root_package() == Ok::<PackageView, InstallErrorView>(
                    package@,
                ),
                Err(error) => self@.root_package() == Err::<PackageView, InstallErrorView>(
                    error@,
                ),
            },
    {
        match &self.metadata.resolve {
            None => Err(InstallError::NoDependencyGraph),
            Some(graph) => match &graph.root {
                None => Err(InstallError::NoRootPackage),
                Some(id) => match self.metadata.get_package(id.as_str()) {
                    Some(package) => Ok(package),
                    None => Err(InstallError::UnknownPackage { id: id.clone() }),
                },
            },
        }
    }

    /// The directory of the package's manifest.
    pub fn get_manifest_dir(&self, package: &Package) -> (r: Option<String>)
        ensures
            view_of(r) == parent_of(package@.manifest_path),
    {
        path_parent(package.manifest_path.as_str())
    }

    /// Where the package itself keeps what a rule names as its source.
    pub fn get_source_file(&self, package: &Package, source: &str) -> (r: Option<String>)
        ensures
            view_of(r) == manifest_source(package@, source@),
    {
        match self.get_manifest_dir(package) {
            Some(dir) => Some(path_join(dir.as_str(), source)),
            None => None,
        }
    }

    /// Where the override source directory would hold what a rule of the
    /// package names as its source.
    pub fn get_override_file(&self, package: &Package, source: &str) -> (r: Option<String>)
        ensures
            view_of(r) == self@.override_source(package@, source@),
    {
        match &self.altsrc {
            Some(dir) => {
                let below = path_join(dir.as_str(), package.name.as_str());
                Some(path_join(below.as_str(), source))
            },
            None => None,
        }
    }

    /// Where a rule's destination lies below the install root.
    pub fn get_destination_file(&self, destination: &str) -> (r: String)
        ensures
            r@ == self@.destination_file(destination@),
    {
        match path_strip_prefix(destination, "/") {
            Some(rest) => path_join(self.dst.as_str(), rest.as_str()),
            None => path_join(self.dst.as_str(), destination),
        }
    }

    /// Plans the link that aliases the root package's binary under the name
    /// of the package's own.
    pub fn root_crate_symlink_bin(&self, package: &Package) -> (jobs: Vec<Job>)
        ensures
            views(jobs@) == self@.alias_jobs(package@),
    {
        let root = match self.get_root_package() {
            Ok(root) => root,
            Err(error) => {
                return failure(error);
            },
        };
        if same_text(root.name.as_str(), package.name.as_str()) {
            return nothing();
        }
        let original = match root.first_binary() {
            Some(original) => original,
            None => {
                return nothing();
            },
        };
        match package.first_binary() {
            Some(name) => {
                let bin = path_join(self.dst.as_str(), "usr/bin");
                let link = path_join(bin.as_str(), name.as_str());
                plan_link(original.as_str(), link, None)
            },
            None => nothing(),
        }
    }

    /// Plans the start and stop links of the service script `name`.
    pub fn plan_init(&self, name: &str, init: &InitScript) -> (jobs: Vec<Job>)
        ensures
            views(jobs@) == init_jobs(self@.dst, name@, *init),
    {
        let reference = path_join("../init.d", name);
        let mut jobs = match init.start {
            Some(order) => plan_runlevel(
                self.dst.as_str(),
                "etc/rc1.d",
                "S",
                order,
                name,
                reference.as_str(),
            ),
            None => nothing(),
        };
        let stop = match init.stop {
            Some(order) => plan_runlevel(
                self.dst.as_str(),
                "etc/rc6.d",
                "K",
                order,
                name,
                reference.as_str(),
            ),
            None => nothing(),
        };
        append_jobs(&mut jobs, stop);
        jobs
    }

    /// Plans one rule of a package. `i` is the rule's place in the
    /// package's rule list, which the errors name.
    pub fn interpret_metadata_rule(&self, package: &Package, i: usize, rule: &CargoRootfsRule) -> (jobs:
        Vec<Job>)
        ensures
            views(jobs@) == self@.rule_jobs(package@, i, rule@),
    {
        match rule.root_crate_symlink {
            Some(true) => {
                return self.root_crate_symlink_bin(package);
            },
            _ => {},
        }
        let source = match &rule.source {
            Some(source) => source,
            None => {
                return failure(
                    InstallError::MissingSource { package: package.name.clone(), index: i },
                );
            },
        };
        let destination = match &rule.destination {
            Some(destination) => destination,
            None => {
                return failure(
                    InstallError::MissingDestination { package: package.name.clone(), index: i },
                );
            },
        };
        let mode = match &rule.permissions {
            Some(text) => match parse_octal(text.as_str()) {
                Some(mode) => Some(mode),
                None => {
                    return failure(
                        InstallError::InvalidPermissions {
                            package: package.name.clone(),
                            index: i,
                        },
                    );
                },
            },
            None => None,
        };
        let target = self.get_destination_file(destination.as_str());
        match rule.symbolic {
            Some(true) => {
                let parent = path_parent(target.as_str());
                return plan_link(source.as_str(), target, parent);
            },
            _ => {},
        }
        let name = match &rule.init {
            Some(_) => path_file_name(target.as_str()),
            None => None,
        };
        let mut jobs: Vec<Job> = Vec::new();
        jobs.push(
            Job::Install {
                package: package.name.clone(),
                alt: self.get_override_file(package, source.as_str()),
                src: self.get_source_file(package, source.as_str()),
                dst: target,
                mode,
            },
        );
        let ghost install = views(jobs@);
        assert(install =~= seq![jobs@[0]@]);
        match &rule.init {
            None => {
                assert(views(jobs@) =~= self@.rule_jobs(package@, i, rule@));
            },
            Some(init) => {
                let links = match name {
                    Some(name) => self.plan_init(name.as_str(), init),
                    None => failure(
                        InstallError::NoFileName { package: package.name.clone(), index: i },
                    ),
                };
                append_jobs(&mut jobs, links);
            },
        }
        jobs
    }
}

impl CargoRootfsView {
    /// The jobs of the entry at `index` of the package's rule list: those
    /// of the rule, or a failure where the entry is no rule.
    pub open spec fn entry_jobs(self, package: PackageView, index: int) -> Seq<JobView> {
        match package.rootfs[index] {
            RuleEntryView::Rule(rule) => self.rule_jobs(package, index as usize, rule),
            RuleEntryView::Malformed { detail } => seq![
                JobView::Fail(
                    InstallErrorView::MalformedRule {
                        package: package.name,
                        index: index as usize,
                        detail,
                    },
                ),
            ],
        }
    }

    /// The job lists of the package's rules, in the order of the rules.
    pub open spec fn entry_lists(self, package: PackageView) -> Seq<Seq<JobView>> {
        Seq::new(package.rootfs.len(), |index: int| self.entry_jobs(package, index))
    }

    /// The jobs of a package: those of its rules in their order, up to the
    /// first failure. A package without rules gives none.
    pub open spec fn package_jobs(self, package: PackageView) -> Seq<JobView> {
        until_failure(self.entry_lists(package))
    }

    /// The jobs of a node of the dependency graph: those of the package it
    /// names, or a failure where the metadata hold no such package.
    pub open spec fn node_jobs(self, id: Seq<char>) -> Seq<JobView> {
        match self.metadata.package(id) {
            Some(package) => self.package_jobs(package),
            None => seq![JobView::Fail(InstallErrorView::UnknownPackage { id })],
        }
    }

    /// The job lists of the nodes of a dependency graph, in their order.
    pub open spec fn node_lists(self, nodes: Seq<Seq<char>>) -> Seq<Seq<JobView>> {
        Seq::new(nodes.len(), |k: int| self.node_jobs(nodes[k]))
    }

    /// The jobs of the whole dependency graph: those of every node in the
    /// order of the graph, up to the first failure; a failure alone where
    /// the graph was not resolved.
    pub open spec fn dependency_jobs(self) -> Seq<JobView> {
        match self.metadata.resolve {
            None => seq![JobView::Fail(InstallErrorView::NoDependencyGraph)],
            Some(graph) => until_failure(self.node_lists(graph.nodes)),
        }
    }

    /// The jobs that install one binary of the build outputs in `usr/bin`,
    /// executable, and strip it where the run is a release.
    pub open spec fn binary_jobs(self, filename: Seq<char>) -> Seq<JobView> {
        let dst = joined(joined(self.dst, "usr/bin"@), filename);
        let copy = seq![
            JobView::Copy {
                src: joined(self.outdir, filename),
                dst,
                mode: Some(EXECUTABLE_MODE),
                depth: 0,
            },
        ];
        if self.command == Command::Release {
            copy.push(JobView::Apply(FsOpView::Strip { path: dst }))
        } else {
            copy
        }
    }

    /// The jobs that install the dynamic library `lib<name>.so` of the build
    /// outputs in `usr/lib`, executable.
    pub open spec fn library_jobs(self, name: Seq<char>) -> Seq<JobView> {
        let filename = "lib"@ + name + ".so"@;
        seq![
            JobView::Copy {
                src: joined(self.outdir, filename),
                dst: joined(joined(self.dst, "usr/lib"@), filename),
                mode: Some(EXECUTABLE_MODE),
                depth: 0,
            },
        ]
    }

    /// The jobs that a target gives when binaries are installed.
    pub open spec fn target_binary_jobs(self, target: TargetView) -> Seq<JobView> {
        if target.is_binary() {
            self.binary_jobs(target.name)
        } else {
            Seq::empty()
        }
    }

    /// The jobs that a target gives when libraries are installed.
    pub open spec fn target_library_jobs(self, target: TargetView) -> Seq<JobView> {
        if target.is_dynamic_library() {
            self.library_jobs(target.name)
        } else {
            Seq::empty()
        }
    }

    /// The jobs that install the binaries of one package: those of its
    /// binary targets in their order, and none for a package that the
    /// workspace does not hold.
    pub open spec fn package_binary_jobs(self, package: PackageView) -> Seq<JobView> {
        if self.metadata.is_member(package) {
            Seq::new(
                package.targets.len(),
                |t: int| self.target_binary_jobs(package.targets[t]),
            ).flatten()
        } else {
            Seq::empty()
        }
    }

    /// The jobs that install the dynamic libraries of one package, in the
    /// same way.
    pub open spec fn package_library_jobs(self, package: PackageView) -> Seq<JobView> {
        if self.metadata.is_member(package) {
            Seq::new(
                package.targets.len(),
                |t: int| self.target_library_jobs(package.targets[t]),
            ).flatten()
        } else {
            Seq::empty()
        }
    }

    /// The jobs that install every binary of the workspace's own packages,
    /// in the order of the packages.
    pub open spec fn binaries_jobs(self) -> Seq<JobView> {
        Seq::new(
            self.metadata.packages.len(),
            |p: int| self.package_binary_jobs(self.metadata.packages[p]),
        ).flatten()
    }

    /// The jobs that install every dynamic library of the workspace's own
    /// packages, in the order of the packages.
    pub open spec fn libraries_jobs(self) -> Seq<JobView> {
        Seq::new(
            self.metadata.packages.len(),
            |p: int| self.package_library_jobs(self.metadata.packages[p]),
        ).flatten()
    }
}

impl CargoRootfs {
    /// Plans every rule of a package, in the order of its rule list, up to
    /// the first failure.
    pub fn install_dependency(&self, package: &Package) -> (jobs: Vec<Job>)
        ensures
            views(jobs@) == self@.package_jobs(package@),
    {
        let n: usize = package.rootfs.len();
        let ghost lists = self@.entry_lists(package@);
        let mut jobs: Vec<Job> = nothing();
        let mut i: usize = 0;
        assert(lists.subrange(0, 0) =~= Seq::<Seq<JobView>>::empty());
        while i < n
            invariant
                i <= n,
                n == package.rootfs.len(),
                lists == self@.entry_lists(package@),
                lists.len() == n,
                none_fails(lists, i as int),
                views(jobs@) == until_failure(lists.subrange(0, i as int)),
            decreases n - i,
        {
            assert(package@.rootfs[i as int] == package.rootfs@[i as int]@);
            let part = match &package.rootfs[i] {
                RuleEntry::Rule(rule) => self.interpret_metadata_rule(package, i, rule),
                RuleEntry::Malformed { detail } => failure(
                    InstallError::MalformedRule {
                        package: package.name.clone(),
                        index: i,
                        detail: detail.clone(),
                    },
                ),
            };
            assert(views(part@) == lists[i as int]);
            let failed = ends_in_failure(&part);
            append_jobs(&mut jobs, part);
            proof {
                lemma_until_failure_step(lists, i as int);
            }
            if failed {
                proof {
                    lemma_until_failure_stops(lists, i as int);
                }
                return jobs;
            }
            i = i + 1;
        }
        assert(lists.subrange(0, n as int) =~= lists);
        jobs
    }

    /// Plans the rules of every package of the dependency graph, in the
    /// order of the graph, up to the first failure.
    pub fn install_dependencies(&self) -> (jobs: Vec<Job>)
        ensures
            views(jobs@) == self@.dependency_jobs(),
    {
        let graph = match &self.metadata.resolve {
            Some(graph) => graph,
            None => {
                return failure(InstallError::NoDependencyGraph);
            },
        };
        let n: usize = graph.nodes.len();
        let ghost nodes = views(graph.nodes@);
        let ghost lists = self@.node_lists(nodes);
        let mut jobs: Vec<Job> = nothing();
        let mut k: usize = 0;
        assert(lists.subrange(0, 0) =~= Seq::<Seq<JobView>>::empty());
        assert(self@.metadata.resolve == Some(graph@));
        while k < n
            invariant
                k <= n,
                self@.dependency_jobs() == until_failure(lists),
                n == graph.nodes.len(),
                nodes == views(graph.nodes@),
                lists == self@.node_lists(nodes),
                lists.len() == n,
                none_fails(lists, k as int),
                views(jobs@) == until_failure(lists.subrange(0, k as int)),
            decreases n - k,
        {
            let id = &graph.nodes[k];
            assert(nodes[k as int] == id@);
            let part = match self.metadata.get_package(id.as_str()) {
                Some(package) => self.install_dependency(package),
                None => failure(InstallError::UnknownPackage { id: id.clone() }),
            };
            assert(views(part@) == lists[k as int]);
            let failed = ends_in_failure(&part);
            append_jobs(&mut jobs, part);
            proof {
                lemma_until_failure_step(lists, k as int);
            }
            if failed {
                proof {
                    lemma_until_failure_stops(lists, k as int);
                }
                return jobs;
            }
            k = k + 1;
        }
        assert(lists.subrange(0, n as int) =~= lists);
        jobs
    }

    /// Plans the installation of one binary of the build outputs.
    pub fn install_bin(&self, filename: &str) -> (jobs: Vec<Job>)
        ensures
            views(jobs@) == self@.binary_jobs(filename@),
    {
        let src = path_join(self.outdir.as_str(), filename);
        let bin = path_join(self.dst.as_str(), "usr/bin");
        let dst = path_join(bin.as_str(), filename);
        let mut jobs: Vec<Job> = Vec::new();
        match self.command {
            Command::Release => {
                jobs.push(
                    Job::Copy { src, dst: dst.clone(), mode: Some(EXECUTABLE_MODE), depth: 0 },
                );
                jobs.push(Job::Apply(FsOp::Strip { path: dst }));
            },
            _ => {
                jobs.push(Job::Copy { src, dst, mode: Some(EXECUTABLE_MODE), depth: 0 });
            },
        }
        assert(views(jobs@) =~= self@.binary_jobs(filename@));
        jobs
    }

    /// Plans the installation of the dynamic library `name` of the build
    /// outputs.
    pub fn install_lib(&self, name: &str) -> (jobs: Vec<Job>)
        ensures
            views(jobs@) == self@.library_jobs(name@),
    {
        let mut filename = String::from_str("lib");
        filename.append(name);
        filename.append(".so");
        let src = path_join(self.outdir.as_str(), filename.as_str());
        let lib = path_join(self.dst.as_str(), "usr/lib");
        let dst = path_join(lib.as_str(), filename.as_str());
        let mut jobs: Vec<Job> = Vec::new();
        jobs.push(Job::Copy { src, dst, mode: Some(EXECUTABLE_MODE), depth: 0 });
        assert(views(jobs@) =~= self@.library_jobs(name@));
        jobs
    }

    fn install_package_bins(&self, package: &Package) -> (jobs: Vec<Job>)
        ensures
            views(jobs@) == self@.package_binary_jobs(package@),
    {
        let mut jobs: Vec<Job> = nothing();
        if !self.metadata.is_member(package) {
            return jobs;
        }
        let n: usize = package.targets.len();
        let ghost lists = Seq::new(
            package@.targets.len(),
            |t: int| self@.target_binary_jobs(package@.targets[t]),
        );
        let mut t: usize = 0;
        assert(lists.subrange(0, 0) =~= Seq::<Seq<JobView>>::empty());
        while t < n
            invariant
                t <= n,
                n == package.targets.len(),
                lists == Seq::new(
                    package@.targets.len(),
                    |t: int| self@.target_binary_jobs(package@.targets[t]),
                ),
                views(jobs@) == lists.subrange(0, t as int).flatten(),
            decreases n - t,
        {
            let target = &package.targets[t];
            assert(package@.targets[t as int] == target@);
            let part = if target.is_binary() {
                self.install_bin(target.name.as_str())
            } else {
                nothing()
            };
            append_jobs(&mut jobs, part);
            proof {
                lists.subrange(0, t as int).lemma_flatten_push(lists[t as int]);
                assert(lists.subrange(0, t as int).push(lists[t as int]) =~= lists.subrange(
                    0,
                    t + 1,
                ));
            }
            t = t + 1;
        }
        assert(lists.subrange(0, n as int) =~= lists);
        jobs
    }

    fn install_package_libs(&self, package: &Package) -> (jobs: Vec<Job>)
        ensures
            views(jobs@) == self@.package_library_jobs(package@),
    {
        let mut jobs: Vec<Job> = nothing();
        if !self.metadata.is_member(package) {
            return jobs;
        }
        let n: usize = package.targets.len();
        let ghost lists = Seq::new(
            package@.targets.len(),
            |t: int| self@.target_library_jobs(package@.targets[t]),
        );
        let mut t: usize = 0;
        assert(lists.subrange(0, 0) =~= Seq::<Seq<JobView>>::empty());
        while t < n
            invariant
                t <= n,
                n == package.targets.len(),
                lists == Seq::new(
                    package@.targets.len(),
                    |t: int| self@.target_library_jobs(package@.targets[t]),
                ),
                views(jobs@) == lists.subrange(0, t as int).flatten(),
            decreases n - t,
        {
            let target = &package.targets[t];
            assert(package@.targets[t as int] == target@);
            let part = if target.is_dynamic_library() {
                self.install_lib(target.name.as_str())
            } else {
                nothing()
            };
            append_jobs(&mut jobs, part);
            proof {
                lists.subrange(0, t as int).lemma_flatten_push(lists[t as int]);
                assert(lists.subrange(0, t as int).push(lists[t as int]) =~= lists.subrange(
                    0,
                    t + 1,
                ));
            }
            t = t + 1;
        }
        assert(lists.subrange(0, n as int) =~= lists);
        jobs
    }

    /// Plans the installation of every binary of the workspace's own
    /// packages.
    pub fn install_bins(&self) -> (jobs: Vec<Job>)
        ensures
            views(jobs@) == self@.binaries_jobs(),
    {
        let n: usize = self.metadata.packages.len();
        let ghost lists = Seq::new(
            self@.metadata.packages.len(),
            |p: int| self@.package_binary_jobs(self@.metadata.packages[p]),
        );
        let mut jobs: Vec<Job> = nothing();
        let mut p: usize = 0;
        assert(lists.subrange(0, 0) =~= Seq::<Seq<JobView>>::empty());
        while p < n
            invariant
                p <= n,
                n == self.metadata.packages.len(),
                lists == Seq::new(
                    self@.metadata.packages.len(),
                    |p: int| self@.package_binary_jobs(self@.metadata.packages[p]),
                ),
                views(jobs@) == lists.subrange(0, p as int).flatten(),
            decreases n - p,
        {
            let package = &self.metadata.packages[p];
            assert(self@.metadata.packages[p as int] == package@);
            let part = self.install_package_bins(package);
            append_jobs(&mut jobs, part);
            proof {
                lists.subrange(0, p as int).lemma_flatten_push(lists[p as int]);
                assert(lists.subrange(0, p as int).push(lists[p as int]) =~= lists.subrange(
                    0,
                    p + 1,
                ));
            }
            p = p + 1;
        }
        assert(lists.subrange(0, n as int) =~= lists);
        jobs
    }

    /// Plans the installation of every dynamic library of the workspace's
    /// own packages.
    pub fn install_libs(&self) -> (jobs: Vec<Job>)
        ensures
            views(jobs@) == self@.libraries_jobs(),
    {
        let n: usize = self.metadata.packages.len();
        let ghost lists = Seq::new(
            self@.metadata.packages.len(),
            |p: int| self@.package_library_jobs(self@.metadata.packages[p]),
        );
        let mut jobs: Vec<Job> = nothing();
        let mut p: usize = 0;
        assert(lists.subrange(0, 0) =~= Seq::<Seq<JobView>>::empty());
        while p < n
            invariant
                p <= n,
                n == self.metadata.packages.len(),
                lists == Seq::new(
                    self@.metadata.packages.len(),
                    |p: int| self@.package_library_jobs(self@.metadata.packages[p]),
                ),
                views(jobs@) == lists.subrange(0, p as int).flatten(),
            decreases n - p,
        {
            let package = &self.metadata.packages[p];
            assert(self@.metadata.packages[p as int] == package@);
            let part = self.install_package_libs(package);
            append_jobs(&mut jobs, part);
            proof {
                lists.subrange(0, p as int).lemma_flatten_push(lists[p as int]);
                assert(lists.subrange(0, p as int).push(lists[p as int]) =~= lists.subrange(
                    0,
                    p + 1,
                ));
            }
            p = p + 1;
        }
        assert(lists.subrange(0, n as int) =~= lists);
        jobs
    }
}

} // verus!
