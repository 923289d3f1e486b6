//! The publish pipeline of a package registry: it decodes an upload, checks
//! the declared metadata and dependencies, and admits the new version into an
//! in-memory catalog in one atomic step.
use vstd::prelude::*;

pub mod catalog;
pub mod config;
pub mod deps;
pub mod external;
pub mod framing;
pub mod laws;
pub mod manifest;
pub mod metadata;
pub mod names;
pub mod pipeline;

verus! {

/// Whether the application runs in production, in development, or under test.
#[derive(PartialEq, Eq, Structural, Clone, Copy, Debug)]
pub enum Env {
    Development,
    Test,
    Production,
}

} // verus!
