//! Messages from the background workers to the window.
use vstd::prelude::*;

use crate::config::{Binding, BindingView};
use crate::input::BindTarget;

verus! {

/// A message for the window's event queue.
#[derive(Debug, Clone)]
pub enum AppEvent {
    /// A binding was captured for start or stop.
    BindingCaptured(BindTarget, Binding),
    /// The tray asked to start.
    StartRequested,
    /// The tray asked to stop.
    StopRequested,
    /// The tray asked to show the window.
    ShowWindow,
    /// The tray asked to quit.
    QuitRequested,
    /// A status line to show.
    Status(String),
    /// An error to show; movement has stopped.
    Error(String),
}

/// The mathematical value of an [`AppEvent`].
pub enum AppEventView {
    BindingCaptured(BindTarget, BindingView),
    StartRequested,
    StopRequested,
    ShowWindow,
    QuitRequested,
    Status(Seq<char>),
    Error(Seq<char>),
}

impl View for AppEvent {
    type V = AppEventView;

    open spec fn view(&self) -> AppEventView {
        match self {
            AppEvent::BindingCaptured(t, b) => AppEventView::BindingCaptured(*t, b@),
            AppEvent::StartRequested => AppEventView::StartRequested,
            AppEvent::StopRequested => AppEventView::StopRequested,
            AppEvent::ShowWindow => AppEventView::ShowWindow,
            AppEvent::QuitRequested => AppEventView::QuitRequested,
            AppEvent::Status(s) => AppEventView::Status(s@),
            AppEvent::Error(s) => AppEventView::Error(s@),
        }
    }
}

/// A status event with the given text.
pub fn status(text: &str) -> (e: AppEvent)
    ensures
        e@ == AppEventView::Status(text@),
{
    AppEvent::Status(String::from_str(text))
}

} // verus!
