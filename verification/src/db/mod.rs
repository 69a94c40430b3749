//! The shapes in which results are handed on for storage.

pub mod abbs;
pub mod entities;
