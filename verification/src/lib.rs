//! Indexing of a package-recipe tree: discovery of package directories,
//! merging of their two declaration files, and reconstruction of each
//! package's change history from commit metadata.

pub mod changes;
pub mod config;
pub mod context;
pub mod db;
pub mod discovery;
pub mod gather;
pub mod layout;
pub mod package;
pub mod path;
pub mod scan;
pub mod text;
