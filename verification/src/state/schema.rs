//! What the state file records about each link.

use vstd::prelude::*;

verus! {

/// One symlink the engine created or confirmed. Paths are stored as provided
/// (post tilde expansion) so `doctor` can re-examine them.
#[derive(Debug, Clone, PartialEq, Eq)]
pub struct Link {
    /// The symlink path.
    pub target: String,
    /// What it points at.
    pub source: String,
}

} // verus!
