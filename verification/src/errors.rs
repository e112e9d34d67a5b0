//! Typed failures of the registry operations, each carrying a human-readable
//! message.

use crate::tab_id::{tab_label, TabId};
use vstd::prelude::*;
use vstd::string::StringExecFns;

verus! {

/// A failure of a registry operation.
#[derive(Debug)]
pub enum TabError {
    /// The resource locator did not parse as a URL; carries the parse error's
    /// message.
    InvalidInput(String),
    /// The operation referenced a tab id not present in the registry.
    NotFound(String),
    /// The host failed to materialize a rendering surface for a new tab.
    SurfaceCreationFailed(String),
}

/// The message carried by the `NotFound` error for the identifier whose
/// counter value is `n`.
pub open spec fn not_found_msg(n: nat) -> Seq<char> {
    "Tab with id "@ + tab_label(n) + " not found"@
}

impl TabError {
    /// The human-readable message carried by this error.
    pub fn message(&self) -> (r: String)
        ensures
            r@ == match self {
                TabError::InvalidInput(m) => m@,
                TabError::NotFound(m) => m@,
                TabError::SurfaceCreationFailed(m) => m@,
            },
    {
        match self {
            TabError::InvalidInput(m) => m.clone(),
            TabError::NotFound(m) => m.clone(),
            TabError::SurfaceCreationFailed(m) => m.clone(),
        }
    }
}

/// Builds the `NotFound` error for `id`.
pub(crate) fn not_found_error(id: TabId) -> (e: TabError)
    ensures
        e matches TabError::NotFound(m) && m@ == not_found_msg(id.num as nat),
{
    let mut s = String::from_str("Tab with id ");
    let label = id.text();
    s.append(label.as_str());
    s.append(" not found");
    proof {
        assert(s@ =~= not_found_msg(id.num as nat));
    }
    TabError::NotFound(s)
}

} // verus!
