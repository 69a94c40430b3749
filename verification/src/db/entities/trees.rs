//! Rows of the table `trees`: one per package tree.

use vstd::prelude::*;

verus! {

#[derive(Clone, Debug, Eq, PartialEq)]
pub struct Model {
    pub tid: i32,
    pub name: String,
    pub category: String,
    pub url: String,
    pub mainbranch: String,
}

} // verus!
