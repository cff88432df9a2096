//! The resolved dependency graph as the engine reads it: packages, their
//! build targets and their rules.

use vstd::prelude::*;
use crate::ops::views;
use crate::ops::view_of;
use crate::rule::CargoRootfsRule;
use crate::rule::RuleView;

verus! {

/// The kinds of build target that the engine tells apart.
#[derive(Clone, Copy, Debug, PartialEq, Eq, Structural)]
pub enum TargetKind {
    /// An executable.
    Bin,
    /// A dynamic system library.
    CDyLib,
    /// A dynamic Rust library.
    DyLib,
    /// Any other kind.
    Other,
}

/// A build target of a package.
#[derive(Clone, Debug, PartialEq, Eq)]
pub struct Target {
    pub name: String,
    pub kind: Vec<TargetKind>,
}

pub struct TargetView {
    pub name: Seq<char>,
    pub kind: Seq<TargetKind>,
}

impl View for Target {
    type V = TargetView;

    open spec fn view(&self) -> TargetView {
        TargetView { name: self.name@, kind: self.kind@ }
    }
}

impl TargetView {
    /// Whether the target builds an executable.
    pub open spec fn is_binary(self) -> bool {
        self.kind.contains(TargetKind::Bin)
    }

    /// Whether the target builds a dynamic library of either kind.
    pub open spec fn is_dynamic_library(self) -> bool {
        self.kind.contains(TargetKind::DyLib) || self.kind.contains(TargetKind::CDyLib)
    }
}

impl Target {
    /// Tells whether the target is of the given kind.
    pub fn has_kind(&self, kind: TargetKind) -> (r: bool)
        ensures
            r == self@.kind.contains(kind),
    {
        let mut i: usize = 0;
        while i < self.kind.len()
            invariant
                i <= self.kind.len(),
                forall|j: int| 0 <= j < i ==> self.kind@[j] != kind,
            decreases self.kind.len() - i,
        {
            if self.kind[i] == kind {
                return true;
            }
            i = i + 1;
        }
        false
    }

    /// Tells whether the target builds an executable.
    pub fn is_binary(&self) -> (r: bool)
        ensures
            r == self@.is_binary(),
    {
        self.has_kind(TargetKind::Bin)
    }

    /// Tells whether the target builds a dynamic library of either kind.
    pub fn is_dynamic_library(&self) -> (r: bool)
        ensures
            r == self@.is_dynamic_library(),
    {
        self.has_kind(TargetKind::DyLib) || self.has_kind(TargetKind::CDyLib)
    }
}

/// One entry of a package's rule list: a rule, or what was found in its
/// place where the entry could not be read as a rule.
#[derive(Clone, Debug, PartialEq, Eq)]
pub enum RuleEntry {
    Rule(CargoRootfsRule),
    Malformed { detail: String },
}

pub enum RuleEntryView {
    Rule(RuleView),
    Malformed { detail: Seq<char> },
}

impl View for RuleEntry {
    type V = RuleEntryView;

    open spec fn view(&self) -> RuleEntryView {
        match self {
            RuleEntry::Rule(rule) => RuleEntryView::Rule(rule@),
            RuleEntry::Malformed { detail } => RuleEntryView::Malformed { detail: detail@ },
        }
    }
}

/// A package of the dependency graph. The engine only reads it.
#[derive(Clone, Debug, PartialEq, Eq)]
pub struct Package {
    /// What the dependency graph calls the package.
    pub id: String,
    pub name: String,
    /// The path of the package's manifest file.
    pub manifest_path: String,
    pub targets: Vec<Target>,
    /// The package's installation rules, in the order of its metadata. Empty
    /// where the metadata declare none.
    pub rootfs: Vec<RuleEntry>,
}

pub struct PackageView {
    pub id: Seq<char>,
    pub name: Seq<char>,
    pub manifest_path: Seq<char>,
    pub targets: Seq<TargetView>,
    pub rootfs: Seq<RuleEntryView>,
}

impl View for Package {
    type V = PackageView;

    open spec fn view(&self) -> PackageView {
        PackageView {
            id: self.id@,
            name: self.name@,
            manifest_path: self.manifest_path@,
            targets: views(self.targets@),
            rootfs: views(self.rootfs@),
        }
    }
}

/// The name of the first of the targets that builds an executable.
pub open spec fn first_binary(targets: Seq<TargetView>) -> Option<Seq<char>>
    decreases targets.len(),
{
    if targets.len() == 0 {
        None
    } else if targets[0].is_binary() {
        Some(targets[0].name)
    } else {
        first_binary(targets.drop_first())
    }
}

impl Package {
    /// The name of the package's first target that builds an executable.
    pub fn first_binary(&self) -> (r: Option<&String>)
        ensures
            view_of(r) == first_binary(self@.targets),
    {
        let n: usize = self.targets.len();
        let ghost all = self@.targets;
        let mut i: usize = 0;
        assert(all.subrange(0, n as int) =~= all);
        while i < n
            invariant
                i <= n,
                n == self.targets.len(),
                all == views(self.targets@),
                first_binary(all) == first_binary(all.subrange(i as int, n as int)),
            decreases n - i,
        {
            let ghost rest = all.subrange(i as int, n as int);
            assert(rest[0] == self.targets@[i as int]@);
            assert(rest.drop_first() =~= all.subrange(i + 1, n as int));
            if self.targets[i].is_binary() {
                return Some(&self.targets[i].name);
            }
            i = i + 1;
        }
        assert(all.subrange(n as int, n as int).len() == 0);
        None
    }
}

/// The resolved dependency graph: its root, if it has one, and its nodes,
/// each named by the id of a package.
#[derive(Clone, Debug, PartialEq, Eq)]
pub struct Resolve {
    pub root: Option<String>,
    pub nodes: Vec<String>,
}

pub struct ResolveView {
    pub root: Option<Seq<char>>,
    pub nodes: Seq<Seq<char>>,
}

impl View for Resolve {
    type V = ResolveView;

    open spec fn view(&self) -> ResolveView {
        ResolveView { root: view_of(self.root), nodes: views(self.nodes@) }
    }
}

/// What the build system reports of a workspace.
#[derive(Clone, Debug, PartialEq, Eq)]
pub struct Metadata {
    /// Every package that the workspace refers to, its own included.
    pub packages: Vec<Package>,
    /// The ids of the workspace's own packages.
    pub workspace_members: Vec<String>,
    /// The dependency graph, where it was resolved.
    pub resolve: Option<Resolve>,
    /// The directory that build outputs are written to.
    pub target_directory: String,
}

pub struct MetadataView {
    pub packages: Seq<PackageView>,
    pub workspace_members: Seq<Seq<char>>,
    pub resolve: Option<ResolveView>,
    pub target_directory: Seq<char>,
}

impl View for Metadata {
    type V = MetadataView;

    open spec fn view(&self) -> MetadataView {
        MetadataView {
            packages: views(self.packages@),
            workspace_members: views(self.workspace_members@),
            resolve: view_of(self.resolve),
            target_directory: self.target_directory@,
        }
    }
}

/// The first of the packages with the given id.
pub open spec fn find_package(packages: Seq<PackageView>, id: Seq<char>) -> Option<PackageView>
    decreases packages.len(),
{
    if packages.len() == 0 {
        None
    } else if packages[0].id == id {
        Some(packages[0])
    } else {
        find_package(packages.drop_first(), id)
    }
}

impl MetadataView {
    /// The first package with the given id.
    pub open spec fn package(self, id: Seq<char>) -> Option<PackageView> {
        find_package(self.packages, id)
    }

    /// Whether the workspace itself holds the package.
    pub open spec fn is_member(self, package: PackageView) -> bool {
        self.workspace_members.contains(package.id)
    }
}

impl Metadata {
    /// Finds the first package with the given id.
    pub fn get_package(&self, id: &str) -> (r: Option<&Package>)
        ensures
            view_of(r) == self@.package(id@),
    {
        let n: usize = self.packages.len();
        let ghost all = self@.packages;
        let mut i: usize = 0;
        assert(all.subrange(0, n as int) =~= all);
        while i < n
            invariant
                i <= n,
                n == self.packages.len(),
                all == views(self.packages@),
                find_package(all, id@) == find_package(all.subrange(i as int, n as int), id@),
            decreases n - i,
        {
            let package = &self.packages[i];
            let ghost rest = all.subrange(i as int, n as int);
            assert(rest[0] == package@);
            assert(rest.drop_first() =~= all.subrange(i + 1, n as int));
            if same_text(package.id.as_str(), id) {
                return Some(package);
            }
            i = i + 1;
        }
        assert(all.subrange(n as int, n as int).len() == 0);
        None
    }

    /// Tells whether the workspace itself holds the package.
    pub fn is_member(&self, package: &Package) -> (r: bool)
        ensures
            r == self@.is_member(package@),
    {
        let n: usize = self.workspace_members.len();
        let mut i: usize = 0;
        while i < n
            invariant
                i <= n,
                n == self.workspace_members.len(),
                forall|j: int| 0 <= j < i ==> self@.workspace_members[j] != package@.id,
            decreases n - i,
        {
            assert(self@.workspace_members[i as int] == self.workspace_members@[i as int]@);
            if same_text(self.workspace_members[i].as_str(), package.id.as_str()) {
                return true;
            }
            i = i + 1;
        }
        false
    }
}

/// What `find_package` finds is the first package with the id, and it finds
/// one wherever a package has the id.
pub proof fn lemma_find_package(packages: Seq<PackageView>, id: Seq<char>)
    ensures
        match find_package(packages, id) {
            Some(package) => exists|i: int|
                0 <= i < packages.len() && #[trigger] packages[i] == package && package.id == id
                    && forall|j: int| 0 <= j < i ==> (#[trigger] packages[j]).id != id,
            None => forall|j: int| 0 <= j < packages.len() ==> (#[trigger] packages[j]).id != id,
        },
    decreases packages.len(),
{
    if packages.len() == 0 {
    } else if packages[0].id == id {
        assert(packages[0] == packages[0]);
    } else {
        let tail = packages.drop_first();
        lemma_find_package(tail, id);
        match find_package(tail, id) {
            Some(package) => {
                let i = choose|i: int|
                    0 <= i < tail.len() && #[trigger] tail[i] == package && package.id == id
                        && forall|j: int| 0 <= j < i ==> (#[trigger] tail[j]).id != id;
                assert(packages[i + 1] == package);
                assert forall|j: int| 0 <= j < i + 1 implies (#[trigger] packages[j]).id != id by {
                    if j > 0 {
                        assert(packages[j] == tail[j - 1]);
                    }
                }
            },
            None => {
                assert forall|j: int| 0 <= j < packages.len() implies (#[trigger] packages[j]).id
                    != id by {
                    if j > 0 {
                        assert(packages[j] == tail[j - 1]);
                    }
                }
            },
        }
    }
}

/// Tells whether two texts are the same, character by character.
pub fn same_text(a: &str, b: &str) -> (r: bool)
    ensures
        r == (a@ == b@),
{
    let n: usize = a.unicode_len();
    if n != b.unicode_len() {
        return false;
    }
    let mut i: usize = 0;
    while i < n
        invariant
            i <= n,
            n == a@.len(),
            n == b@.len(),
            forall|j: int| 0 <= j < i ==> a@[j] == b@[j],
        decreases n - i,
    {
        if a.get_char(i) != b.get_char(i) {
            return false;
        }
        i = i + 1;
    }
    assert(a@ =~= b@);
    true
}

} // verus!
