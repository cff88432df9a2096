//! What the engine hands to its caller: filesystem operations, jobs that
//! expand into them, and the errors that end a run.

use vstd::prelude::*;

verus! {

/// The views of the items of a sequence, in order.
pub open spec fn views<T: View>(s: Seq<T>) -> Seq<T::V> {
    s.map_values(|x: T| x@)
}

/// The view of an optional value.
pub open spec fn view_of<T: View>(o: Option<T>) -> Option<T::V> {
    match o {
        Some(x) => Some(x@),
        None => None,
    }
}

/// One change to the filesystem. The caller performs it; any failure of the
/// filesystem while doing so ends the run, except where stated.
#[derive(Clone, Debug, PartialEq, Eq)]
pub enum FsOp {
    /// Create the directory and every missing ancestor.
    CreateDirAll { path: String },
    /// Copy the contents of the file `src` to `dst`, byte for byte.
    CopyFile { src: String, dst: String },
    /// Set the permission bits of `path` to exactly `mode`.
    SetPermissions { path: String, mode: u32 },
    /// Remove the file or link at `path`. A failure is ignored: the entry
    /// may not exist.
    RemoveFile { path: String },
    /// Create a symbolic link at `link` whose text is `original`, taken as
    /// it is.
    Symlink { original: String, link: String },
    /// Strip the debug symbols from the file at `path`.
    Strip { path: String },
}

pub enum FsOpView {
    CreateDirAll { path: Seq<char> },
    CopyFile { src: Seq<char>, dst: Seq<char> },
    SetPermissions { path: Seq<char>, mode: u32 },
    RemoveFile { path: Seq<char> },
    Symlink { original: Seq<char>, link: Seq<char> },
    Strip { path: Seq<char> },
}

impl View for FsOp {
    type V = FsOpView;

    open spec fn view(&self) -> FsOpView {
        match self {
            FsOp::CreateDirAll { path } => FsOpView::CreateDirAll { path: path@ },
            FsOp::CopyFile { src, dst } => FsOpView::CopyFile { src: src@, dst: dst@ },
            FsOp::SetPermissions { path, mode } => FsOpView::SetPermissions {
                path: path@,
                mode: *mode,
            },
            FsOp::RemoveFile { path } => FsOpView::RemoveFile { path: path@ },
            FsOp::Symlink { original, link } => FsOpView::Symlink {
                original: original@,
                link: link@,
            },
            FsOp::Strip { path } => FsOpView::Strip { path: path@ },
        }
    }
}

/// Why a run ends early. Every one of them is fatal: nothing is retried and
/// nothing is undone.
#[derive(Clone, Debug, PartialEq, Eq)]
pub enum InstallError {
    /// The rule at `index` of the package's rule list could not be read.
    MalformedRule { package: String, index: usize, detail: String },
    /// A rule that copies or links names no source.
    MissingSource { package: String, index: usize },
    /// A rule that copies or links names no destination.
    MissingDestination { package: String, index: usize },
    /// The permissions of the rule are not an octal number.
    InvalidPermissions { package: String, index: usize },
    /// The rule asks for init links and its destination has no file name.
    NoFileName { package: String, index: usize },
    /// The manifest path of the package has no parent directory.
    NoManifestDirectory { package: String },
    /// The metadata hold no resolved dependency graph.
    NoDependencyGraph,
    /// The dependency graph names no root package.
    NoRootPackage,
    /// The dependency graph names a package that the metadata do not hold.
    UnknownPackage { id: String },
    /// The source is neither a file nor a directory.
    ArtifactNotFound { path: String },
    /// A copy went deeper than the limit; the tree probably loops.
    RecursionLimit { path: String },
    /// The destination of a file has no parent directory.
    NoParentDirectory { path: String },
    /// The caller answered another question than the one asked.
    UnexpectedReply,
    /// The run has ended with an error before.
    Stopped,
}

pub enum InstallErrorView {
    MalformedRule { package: Seq<char>, index: usize, detail: Seq<char> },
    MissingSource { package: Seq<char>, index: usize },
    MissingDestination { package: Seq<char>, index: usize },
    InvalidPermissions { package: Seq<char>, index: usize },
    NoFileName { package: Seq<char>, index: usize },
    NoManifestDirectory { package: Seq<char> },
    NoDependencyGraph,
    NoRootPackage,
    UnknownPackage { id: Seq<char> },
    ArtifactNotFound { path: Seq<char> },
    RecursionLimit { path: Seq<char> },
    NoParentDirectory { path: Seq<char> },
    UnexpectedReply,
    Stopped,
}

impl View for InstallError {
    type V = InstallErrorView;

    open spec fn view(&self) -> InstallErrorView {
        match self {
            InstallError::MalformedRule { package, index, detail } => {
                InstallErrorView::MalformedRule {
                    package: package@,
                    index: *index,
                    detail: detail@,
                }
            },
            InstallError::MissingSource { package, index } => InstallErrorView::MissingSource {
                package: package@,
                index: *index,
            },
            InstallError::MissingDestination { package, index } => {
                InstallErrorView::MissingDestination { package: package@, index: *index }
            },
            InstallError::InvalidPermissions { package, index } => {
                InstallErrorView::InvalidPermissions { package: package@, index: *index }
            },
            InstallError::NoFileName { package, index } => InstallErrorView::NoFileName {
                package: package@,
                index: *index,
            },
            InstallError::NoManifestDirectory { package } => {
                InstallErrorView::NoManifestDirectory { package: package@ }
            },
            InstallError::NoDependencyGraph => InstallErrorView::NoDependencyGraph,
            InstallError::NoRootPackage => InstallErrorView::NoRootPackage,
            InstallError::UnknownPackage { id } => InstallErrorView::UnknownPackage { id: id@ },
            InstallError::ArtifactNotFound { path } => InstallErrorView::ArtifactNotFound {
                path: path@,
            },
            InstallError::RecursionLimit { path } => InstallErrorView::RecursionLimit {
                path: path@,
            },
            InstallError::NoParentDirectory { path } => InstallErrorView::NoParentDirectory {
                path: path@,
            },
            InstallError::UnexpectedReply => InstallErrorView::UnexpectedReply,
            InstallError::Stopped => InstallErrorView::Stopped,
        }
    }
}

/// A unit of work. The rules of a package and the build outputs of the
/// workspace become jobs; the installer turns each job into operations,
/// asking the caller about the source tree where the job depends on it.
#[derive(Clone, Debug, PartialEq, Eq)]
pub enum Job {
    /// Install what a copy rule names: from `alt` if that path exists, else
    /// from `src`. Without `src` the manifest directory of `package` is not
    /// known, which is an error once `alt` is of no use.
    Install { package: String, alt: Option<String>, src: Option<String>, dst: String, mode: Option<
        u32,
    > },
    /// Copy the file or directory tree `src` to `dst`, `depth` levels below
    /// where the copy began.
    Copy { src: String, dst: String, mode: Option<u32>, depth: u32 },
    /// Copy the entries of the directory `src` into the directory `dst`,
    /// which lies `depth` levels below where the copy began.
    Walk { src: String, dst: String, mode: Option<u32>, depth: u32 },
    /// Perform one operation.
    Apply(FsOp),
    /// End the run with this error.
    Fail(InstallError),
}

pub enum JobView {
    Install {
        package: Seq<char>,
        alt: Option<Seq<char>>,
        src: Option<Seq<char>>,
        dst: Seq<char>,
        mode: Option<u32>,
    },
    Copy { src: Seq<char>, dst: Seq<char>, mode: Option<u32>, depth: u32 },
    Walk { src: Seq<char>, dst: Seq<char>, mode: Option<u32>, depth: u32 },
    Apply(FsOpView),
    Fail(InstallErrorView),
}

impl View for Job {
    type V = JobView;

    open spec fn view(&self) -> JobView {
        match self {
            Job::Install { package, alt, src, dst, mode } => JobView::Install {
                package: package@,
                alt: view_of(*alt),
                src: view_of(*src),
                dst: dst@,
                mode: *mode,
            },
            Job::Copy { src, dst, mode, depth } => JobView::Copy {
                src: src@,
                dst: dst@,
                mode: *mode,
                depth: *depth,
            },
            Job::Walk { src, dst, mode, depth } => JobView::Walk {
                src: src@,
                dst: dst@,
                mode: *mode,
                depth: *depth,
            },
            Job::Apply(op) => JobView::Apply(op@),
            Job::Fail(error) => JobView::Fail(error@),
        }
    }
}

} // verus!
