//! The system tray: menu actions and icon pixels.
use vstd::prelude::*;

use crate::events::{AppEvent, AppEventView};
use crate::text::str_equal;

verus! {

/// The event a tray menu item sends.
pub open spec fn spec_menu_event(id: Seq<char>) -> Option<AppEventView> {
    if id == "open"@ {
        Some(AppEventView::ShowWindow)
    } else if id == "start"@ {
        Some(AppEventView::StartRequested)
    } else if id == "stop"@ {
        Some(AppEventView::StopRequested)
    } else if id == "quit"@ {
        Some(AppEventView::QuitRequested)
    } else {
        None
    }
}

/// The event for the tray menu item with the given id, if it is one of ours.
pub fn menu_event(id: &str) -> (r: Option<AppEvent>)
    ensures
        crate::input::event_view(r) == spec_menu_event(id@),
{
    if str_equal(id, "open") {
        Some(AppEvent::ShowWindow)
    } else if str_equal(id, "start") {
        Some(AppEvent::StartRequested)
    } else if str_equal(id, "stop") {
        Some(AppEvent::StopRequested)
    } else if str_equal(id, "quit") {
        Some(AppEvent::QuitRequested)
    } else {
        None
    }
}

/// Write one ARGB32 pixel at byte offset `index`.
pub fn set_argb(data: &mut Vec<u8>, index: usize, a: u8, r: u8, g: u8, b: u8)
    requires
        index + 3 < old(data)@.len(),
    ensures
        final(data)@ == old(data)@.update(index as int, a).update(index + 1, r).update(index + 2, g).update(index + 3, b),
{
    let n = data.len();
    assert(index + 3 < n);
    data.set(index, a);
    data.set(index + 1, r);
    data.set(index + 2, g);
    data.set(index + 3, b);
}

} // verus!
