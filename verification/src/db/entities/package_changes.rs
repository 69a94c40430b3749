//! Rows of the table `package_changes`: one per commit that touched a
//! package, keyed by package and commit hash.

use vstd::prelude::*;

verus! {

#[derive(Clone, Debug, PartialEq)]
pub struct Model {
    pub package: String,
    pub githash: String,
    pub version: String,
    pub branch: String,
    pub urgency: String,
    pub message: String,
    pub maintainer_name: String,
    pub maintainer_email: String,
    pub timestamp: i64,
}

} // verus!
