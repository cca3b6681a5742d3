use crate::config::mod_entry::ModEntry;
use vstd::prelude::*;

verus! {

/// The two sources of mods: a list written out, and the address of a
/// collection page.
#[derive(Debug, Clone)]
pub struct ModsConfig {
    pub server_mod_list: Option<Vec<ModEntry>>,
    pub mod_collection_url: Option<String>,
}

} // verus!
