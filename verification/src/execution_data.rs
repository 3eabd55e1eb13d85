//! What every execution is told about the machine it runs on.

use crate::cli::TopLevelArgs;
use crate::installation::Installation;
use crate::machine::Machine;
use crate::repo::Repo;
use crate::text::joined_path;
use vstd::prelude::*;

verus! {

/// What every execution on this machine is told: who the machine is, where
/// the tracked files live, and in which mode to run.
#[derive(Debug)]
pub struct ExecutionData {
    /// The files subtree of the repository.
    pub file_dir: String,
    pub machine: Machine,
    /// Execute nothing and mark nothing.
    pub dry_run: bool,
    /// Execute nothing, but mark every piece as if it had succeeded.
    pub test_run: bool,
}

impl ExecutionData {
    /// What executions of an installation are told, whose repository has its
    /// working tree at `workdir`.
    pub fn new(
        installation: &Installation,
        top_level_args: &TopLevelArgs,
        workdir: &str,
    ) -> (data: Self)
        ensures
            data.file_dir@ == joined_path(workdir@, "files"@),
            data.machine == installation@.machine,
            !data.dry_run,
            data.test_run == top_level_args.test_run,
    {
        Self {
            file_dir: Repo::file_dir(workdir),
            machine: *installation.machine(),
            dry_run: false,
            test_run: top_level_args.test_run,
        }
    }
}

} // verus!
