//! The contract commands and what each of them asks for.

use std::path::PathBuf;
use vstd::prelude::*;

verus! {

/// `std::path::PathBuf`, carried through as an opaque value.
#[verifier::external_type_specification]
#[verifier::external_body]
pub struct ExPathBuf(PathBuf);

/// A command on contracts.
#[derive(Debug)]
pub enum CWCmd {
    /// Create a new contract from the template.
    New {
        /// Contract name.
        name: String,
        /// Where to store the generated contract.
        target_dir: Option<PathBuf>,
        /// The template's version; the main branch where none is given.
        version: Option<String>,
    },
    /// Build the contracts for storing on chain.
    Build {
        /// Whether the contracts are optimized after the build.
        optimize: bool,
        /// Whether the optimizer for arm64 machines is used.
        aarch64: bool,
    },
}

/// The work that a command asks for, with arguments of its own.
#[derive(Debug)]
pub enum Operation {
    /// Generate the contract `name` from the template at `version` under
    /// `target_dir`.
    NewContract { name: String, version: Option<String>, target_dir: Option<PathBuf> },
    /// Build the contracts, optimizing them if asked.
    BuildContracts { optimize: bool, aarch64: bool },
}

/// Whether `op` is the work that `cmd` asks for.
pub open spec fn asks_for(cmd: CWCmd, op: Operation) -> bool {
    match cmd {
        CWCmd::New { name, target_dir, version } => op == (Operation::NewContract {
            name,
            version,
            target_dir,
        }),
        CWCmd::Build { optimize, aarch64 } => op == (Operation::BuildContracts {
            optimize,
            aarch64,
        }),
    }
}

/// A copy of `path`, made by `PathBuf::clone`: the same path.
#[verifier::external_body]
fn copy_path(path: &PathBuf) -> (copy: PathBuf)
    ensures
        copy == *path,
{
    path.clone()
}

/// The module of the contract commands.
#[derive(Debug)]
pub struct CWModule {}

impl CWModule {
    /// The module.
    pub fn new() -> (module: CWModule) {
        CWModule {  }
    }

    /// Chooses the work that `cmd` asks for and hands it its own copy of the
    /// command's arguments.
    pub fn execute(cmd: &CWCmd) -> (op: Operation)
        ensures
            asks_for(*cmd, op),
    {
        match cmd {
            CWCmd::New { name, target_dir, version } => {
                let version = match version {
                    Some(v) => Some(v.clone()),
                    None => None,
                };
                let target_dir = match target_dir {
                    Some(dir) => Some(copy_path(dir)),
                    None => None,
                };
                Operation::NewContract { name: name.clone(), version, target_dir }
            },
            CWCmd::Build { optimize, aarch64 } => Operation::BuildContracts {
                optimize: *optimize,
                aarch64: *aarch64,
            },
        }
    }
}

} // verus!
