//! Release-versioning workflow library.
//!
//! Parses and bumps a three-component semantic version held in a project
//! manifest, rewrites the manifest in place preserving every other byte,
//! and records the change as a commit plus an annotated tag in the
//! repository at the working directory.

pub mod errors;
pub mod version;
pub mod manifest;
pub mod git;
pub mod cli;
