//! A local supervisor for developer-tool commands: it resolves the exact
//! shell invocation for a package-manager script under a chosen runtime,
//! tracks running processes in a registry that admits at most one entry per
//! run id, keeps a bounded rolling log per run, and drives each run through
//! its lifecycle from start request to exit event.
//!
//! All I/O (spawning, stream reading, file writes, event transport) is left
//! to the embedding program; this crate holds the decisions and the state.

pub mod logbuf;
pub mod model;
pub mod naming;
pub mod order;
pub mod paths;
pub mod registry;
pub mod resolver;
pub mod supervisor;
pub mod strutil;
pub mod update;
pub mod versions;
