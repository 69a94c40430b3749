//! Rows of the table `package_dependencies`: one per dependency edge of a
//! package, architecture and kind of relationship.

use vstd::prelude::*;

verus! {

#[derive(Clone, Debug, PartialEq, Eq)]
pub struct Model {
    pub package: String,
    pub dependency: String,
    pub relop: Option<String>,
    pub version: Option<String>,
    pub architecture: String,
    /// One of PKGDEP, PKGRECOM, PKGBREAK, PKGCONFL, PKGREP, PKGPROV, PKGSUG
    /// and BUILDDEP.
    pub relationship: String,
}

/// The tables that a row refers to.
#[derive(Copy, Clone, Debug)]
pub enum Relation {
    /// The row's package is a row of the table of packages.
    Packages,
}

} // verus!
