//! Where the widget window goes: the saved position is written once the
//! window has stopped moving.

use vstd::prelude::*;

verus! {

/// How long, in milliseconds, the window must stay put before its position
/// is saved.
pub const SETTLE_MS: u64 = 500;

/// Whether to save the position the window moved to, given whether it moved
/// again during the [`SETTLE_MS`] wait (`None` when that can no longer be
/// told because the window is gone): only a position the window settled at
/// is saved.
pub fn should_save_position(moved_again: Option<bool>) -> (save: bool)
    ensures
        save == (moved_again == Some(false)),
{
    match moved_again {
        Some(moved) => !moved,
        None => false,
    }
}

} // verus!
