//! Resolves a declared set of content-registry projects into a concrete,
//! integrity-verified set of downloadable artefacts, and records that
//! resolution as a lockfile for reproducible re-runs.
//!
//! The crate holds the decision logic: version selection, the server
//! compatibility guard, the breadth-first dependency closure, lockfile
//! staleness validation, and checksum verification. Network and file
//! transfers are performed by the caller, which drives the resolver state
//! machine and hands each registry answer back to it.

pub mod codec;
pub mod fetcher;
pub mod lockfile;
pub mod manifest;
pub mod model;
pub mod resolver;
pub mod text;
