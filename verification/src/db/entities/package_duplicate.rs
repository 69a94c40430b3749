//! Rows of the table `package_duplicate`: one per directory that declares a
//! package which another directory declares too.

use vstd::prelude::*;

verus! {

#[derive(Clone, Debug, PartialEq)]
pub struct Model {
    pub package: String,
    pub tree: String,
    pub category: String,
    pub section: String,
    pub directory: String,
}

} // verus!
