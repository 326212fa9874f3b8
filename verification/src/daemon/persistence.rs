//! Where the daemon checkpoints its process state.
use vstd::prelude::*;
use crate::text::concat2;

verus! {

/// The daemon's checkpoint file, `CHECKPOINT.json` in its state directory.
#[derive(Debug)]
pub struct PersistenceManager {
    checkpoint_path: String,
}

impl PersistenceManager {
    pub closed spec fn path_view(&self) -> Seq<char> {
        self.checkpoint_path@
    }

    /// The checkpoint of the daemon whose state directory is `state_dir`.
    pub fn new(state_dir: &str) -> (r: Self)
        ensures
            r.path_view() == state_dir@ + "/CHECKPOINT.json"@,
    {
        PersistenceManager { checkpoint_path: concat2(state_dir, "/CHECKPOINT.json") }
    }

    /// The checkpoint file.
    pub fn checkpoint_path(&self) -> (r: &String)
        ensures
            r@ == self.path_view(),
    {
        &self.checkpoint_path
    }
}

} // verus!
