//! The directives that govern one reconciliation pass.

use vstd::prelude::*;

verus! {

/// Which class of drift triggered the current pass.
#[derive(Clone, Copy, Debug, PartialEq, Eq, Structural)]
pub enum SyncMode {
    Create,
    Modify,
    Delete,
    Any,
}

/// What is materialised at a destination before a copy.
#[derive(Clone, Copy, Debug, PartialEq, Eq, Structural)]
pub enum CreateType {
    File,
    Folder,
}

impl SyncMode {
    /// Whether an entry found on one side only is taken as stale and removed.
    pub fn is_delete(&self) -> (r: bool)
        ensures
            r == (*self == SyncMode::Delete),
    {
        match self {
            SyncMode::Delete => true,
            _ => false,
        }
    }
}

} // verus!
