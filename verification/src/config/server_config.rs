use vstd::prelude::*;

verus! {

/// Where the download tool lives and which account it logs in with.
#[derive(Debug, Clone)]
pub struct ServerConfig {
    pub steamcmd_dir: String,
    pub username: String,
}

} // verus!
