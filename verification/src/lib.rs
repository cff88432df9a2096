//! Planning engine for installing build artifacts and manifest-declared files
//! into a staged root filesystem.
//!
//! The library never touches the filesystem itself. A [`CargoRootfs`] turns
//! the packages of a workspace and their installation rules into jobs; an
//! [`installer::Installer`] turns jobs into single actions, one at a time,
//! and is told by its caller what came of each. The caller performs them.
//!
//! What a list of jobs comes to on a given source tree is said in [`trace`];
//! [`run`] shows that the installer hands out exactly that, and [`laws`]
//! holds what follows for every plan.

pub mod installer;
pub mod laws;
pub mod model;
pub mod ops;
pub mod path;
pub mod plan;
pub mod rootfs;
pub mod rule;
pub mod run;
pub mod text;
pub mod trace;

pub use rootfs::CargoRootfs;
pub use rootfs::CargoRootfsArgs;
pub use rule::CargoRootfsRule;
pub use rule::InitScript;
pub use text::strmode;
