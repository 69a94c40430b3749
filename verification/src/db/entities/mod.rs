//! One row of each table, as plain data.

pub mod package_changes;
pub mod package_dependencies;
pub mod package_duplicate;
pub mod trees;
