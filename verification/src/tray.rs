//! The tray menu: its entries and what choosing one does.

use vstd::prelude::*;
use crate::text::same_text;

verus! {

/// What choosing a tray menu entry does.
#[derive(Debug, Clone, Copy, PartialEq, Eq)]
pub enum TrayAction {
    /// Show the widget window and focus it.
    Show,
    /// Hide the widget window; the process keeps running.
    Hide,
    /// Open (or bring forward) the settings window.
    OpenSettings,
    /// Forget the saved window position and move the window back to
    /// ([`RESET_X`], [`RESET_Y`]).
    ResetPosition,
    /// Exit the widget.
    Quit,
    /// Not a known entry: do nothing.
    Ignore,
}

/// Physical x coordinate the window moves to on "Reset Position".
pub const RESET_X: i32 = 100;

/// Physical y coordinate the window moves to on "Reset Position".
pub const RESET_Y: i32 = 100;

/// The action of the menu entry with identifier `id`.
pub open spec fn action_of(id: Seq<char>) -> TrayAction {
    if id == "show"@ {
        TrayAction::Show
    } else if id == "hide"@ {
        TrayAction::Hide
    } else if id == "settings"@ {
        TrayAction::OpenSettings
    } else if id == "reset"@ {
        TrayAction::ResetPosition
    } else if id == "quit"@ {
        TrayAction::Quit
    } else {
        TrayAction::Ignore
    }
}

/// Decides what the menu entry with identifier `id` does (see [`action_of`]).
pub fn tray_action(id: &str) -> (action: TrayAction)
    ensures
        action == action_of(id@),
{
    if same_text(id, "show") {
        TrayAction::Show
    } else if same_text(id, "hide") {
        TrayAction::Hide
    } else if same_text(id, "settings") {
        TrayAction::OpenSettings
    } else if same_text(id, "reset") {
        TrayAction::ResetPosition
    } else if same_text(id, "quit") {
        TrayAction::Quit
    } else {
        TrayAction::Ignore
    }
}

} // verus!
