//! Extraction of package records from a package tree: which directories
//! hold a package, how the two declaration files of one are merged, what a
//! failed package is reported as, and what the commit log says of a package.

pub use crate::changes::{
    change_of, change_records, changes_of, high_urgency, lemma_no_commits_no_changes,
    lemma_urgency, medium_urgency, scan_package_changes, security_keyword, urgency, urgency_of,
    Change, ChangeRecord, CommitInfo, IndexedCommit,
};
pub use crate::discovery::{
    discover, discovered, get_tree_dirs, is_secondary, lemma_discovered_pairs,
    lemma_discovery_complete, lemma_discovery_unique, lemma_no_pair_no_change,
    lemma_stray_file_changes_nothing, listed, pair_views, same_path, unpaired, Discovery,
};
pub use crate::gather::{
    diagnostics_of, lemma_order_independent, outcome_views, record_bag, record_views, records_of,
    scan_packages,
};
pub use crate::layout::{
    defines_path_to_spec_path, grandparent_of, lemma_pairing, lemma_spec_path_of_joined,
    package_dir, package_dir_of, package_name, package_name_of, parent_of, path_error_text,
    primary_name, secondary_name, spec_path_of, PathError,
};
pub use crate::scan::{
    begin_scan, decorated, legacy_release_key, legacy_version_key, lemma_decorated,
    lemma_decorated_twice, lemma_one_outcome, lemma_parse_failures_do_not_stop,
    lemma_secondary_sees_renamed_keys, lemma_unreadable_gives_nothing, materialized,
    parse_diagnostics, parse_spec_and_defines, parse_step, release_key, renamed, run,
    scan_package, skipped, spec_decorator, step, version_key, ActionModel, EventModel,
    ScanAction, ScanEvent, ScanState, StateModel,
};
