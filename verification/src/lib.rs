//! A build-orchestration library for a compiled-artifact ecosystem: it
//! resolves declared dependency coordinates against a remote binary
//! repository, walks their transitive dependency graphs, and plans
//! incremental compilation of a project's source tree.
//!
//! The library holds the decision logic: metadata parsing, placeholder
//! expansion, the transitive-resolution state machine, staleness detection,
//! build planning, and classpath composition. File, network, and process
//! work is left to the surrounding application, which feeds plain values in
//! and carries actions out.

pub mod cli;
pub mod config;
pub mod discover;
pub mod package;
pub mod plan;
pub mod pom;
pub mod resolve;
pub mod props;
pub mod text;
