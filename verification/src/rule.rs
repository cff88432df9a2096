//! Installation rules as a package's metadata declares them.

use vstd::prelude::*;
use crate::ops::view_of;

verus! {

/// Where the start and stop links of a service script are ordered. Each of
/// the two is optional on its own.
#[derive(Clone, Copy, Debug, PartialEq, Eq)]
pub struct InitScript {
    pub start: Option<u32>,
    pub stop: Option<u32>,
}

/// One declarative installation rule. Every field is optional as declared;
/// which of them a rule needs depends on what it asks for.
#[derive(Clone, Debug, PartialEq, Eq)]
pub struct CargoRootfsRule {
    /// Where to install, taken relative to the install root.
    pub destination: Option<String>,
    /// What to install, taken relative to the directory of the package's
    /// manifest, or the text of the link where the rule is symbolic.
    pub source: Option<String>,
    /// The permission bits to set, as octal text.
    pub permissions: Option<String>,
    /// Whether to create a symbolic link in place of a copy.
    pub symbolic: Option<bool>,
    /// Whether the rule links the package's binary to that of the root
    /// package. Such a rule reads no other field.
    pub root_crate_symlink: Option<bool>,
    /// Start and stop ordering, for a rule that installs a service script.
    pub init: Option<InitScript>,
}

pub struct RuleView {
    pub destination: Option<Seq<char>>,
    pub source: Option<Seq<char>>,
    pub permissions: Option<Seq<char>>,
    pub symbolic: Option<bool>,
    pub root_crate_symlink: Option<bool>,
    pub init: Option<InitScript>,
}

impl View for CargoRootfsRule {
    type V = RuleView;

    open spec fn view(&self) -> RuleView {
        RuleView {
            destination: view_of(self.destination),
            source: view_of(self.source),
            permissions: view_of(self.permissions),
            symbolic: self.symbolic,
            root_crate_symlink: self.root_crate_symlink,
            init: self.init,
        }
    }
}

} // verus!
