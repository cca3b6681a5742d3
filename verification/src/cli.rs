//! The switches of the command line.

use vstd::prelude::*;

verus! {

/// The switches a run is started with.
#[derive(Debug, Clone, Copy, PartialEq, Eq, Structural)]
pub struct CliArgs {
    /// Skip server validation during update.
    pub skip_server_validation: bool,
    /// Skip mod validation during update.
    pub skip_mod_validation: bool,
    /// Skip all validation, of the server and of the mods.
    pub skip_validation: bool,
    /// Make no network call: what is needed must already be on disk.
    pub offline: bool,
}

} // verus!
