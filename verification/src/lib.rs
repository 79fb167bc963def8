//! Indexing core of a local photo catalog.
//!
//! The library decides which directory entries are image files, derives the
//! catalog attributes of each file, models the catalog of library files,
//! images, embedded-metadata attributes and tags, and builds the
//! parameterized statements that a relational store executes.

pub mod catalog;
pub mod laws;
pub mod meta;
pub mod query;
pub mod scan;
pub mod sql;
