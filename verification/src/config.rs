//! What a scan is configured with.

use vstd::prelude::*;

verus! {

/// The settings of the indexer.
#[derive(Debug, Clone, PartialEq, Eq)]
pub struct Config {
    /// Where the package tree's repository lies.
    pub abbs_path: String,
    /// How many workers scan package directories at a time.
    pub thread: usize,
    /// Where the commit index lies.
    pub commits_db_path: String,
}

} // verus!
