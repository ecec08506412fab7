//! The hooks of the pipeline that concern a package's commands and peers.

use vstd::prelude::*;
use crate::layout::InstallConfig;
use crate::package::FlatPackage;

verus! {

/// Generates the launcher scripts for the commands of a package. The
/// engine installs packages without launchers, whatever the package
/// declares under `bin`: the call has no effect.
pub fn generate_script(_config: &InstallConfig, _package: &FlatPackage) {
}

/// Whether the named package has peer dependencies that are left to
/// check. Peers are settled when the tree is resolved, before the engine
/// runs, so the answer is always no.
pub fn _check_peer_dependency(_package_name: &str) -> (pending: bool)
    ensures
        !pending,
{
    false
}

} // verus!
