//! The core of a game launcher: deciding which libraries, native bundles and
//! asset objects a version needs on this platform, planning their
//! acquisition, choosing a compatible runtime, building the launch command,
//! and supervising the started process until it has clearly started or
//! clearly failed.
//!
//! Everything here is pure: the caller performs the downloads, file-system
//! probing and process handling, and hands the results back as plain values.
use vstd::prelude::*;

pub mod java;
pub mod launch;
pub mod manifest;
pub mod messages;
pub mod models;
pub mod resolver;
pub mod rules;
pub mod schedule;
pub mod supervisor;
pub mod text;

verus! {

} // verus!
