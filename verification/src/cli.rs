//! The command-line surface: which subcommand a run carries out.

use vstd::prelude::*;

verus! {

/// A parsed invocation.
#[derive(Debug, Clone, Copy, PartialEq, Eq, Structural)]
pub struct Cli {
    pub command: Commands,
}

/// The subcommands the tool offers: scaffold a project, resolve and fetch
/// its dependencies, build it incrementally, delete the output tree, run
/// it, run its tests, or package it (optionally with every dependency
/// archive bundled in).
#[derive(Debug, Clone, Copy, PartialEq, Eq, Structural)]
pub enum Commands {
    Init,
    Fetch,
    Build,
    Clean,
    Run,
    Test,
    Package { uber: bool },
}

} // verus!
