//! What the watcher of a vault tells the front end.

use vstd::prelude::*;

verus! {

/// Notes that changed in the vault.
#[derive(Debug, Clone)]
pub struct VaultChangeEvent {
    pub paths: Vec<String>,
    pub reindexed: bool,
}

} // verus!
