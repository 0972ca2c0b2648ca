//! Opening and closing the session popup.
use vstd::prelude::*;

verus! {

/// What to do with the popup window.
pub enum PopupAction<I> {
    /// Close the popup window with this id.
    Close(I),
    /// Open a popup window with this id.
    Open(I),
}

/// A click on the panel button: an open popup is closed, otherwise a popup
/// is opened under the id `fresh`. Returns the new popup state and the action.
pub fn toggle_popup<I: Copy>(current: Option<I>, fresh: I) -> (r: (Option<I>, PopupAction<I>))
    ensures
        match current {
            Some(id) => r.0 is None && r.1 == PopupAction::Close(id),
            None => r.0 == Some(fresh) && r.1 == PopupAction::Open(fresh),
        },
{
    match current {
        Some(id) => (None, PopupAction::Close(id)),
        None => (Some(fresh), PopupAction::Open(fresh)),
    }
}

/// The popup state after the window system asked to close a window:
/// cleared when that window is the popup (`closing_is_popup`), unchanged
/// otherwise.
pub fn popup_after_close<I>(current: Option<I>, closing_is_popup: bool) -> (r: Option<I>)
    ensures
        r == (if closing_is_popup { None } else { current }),
{
    if closing_is_popup {
        None
    } else {
        current
    }
}

} // verus!
