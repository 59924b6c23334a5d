//! The window's own state and decisions: status line, tray hiding, binding
//! assignment and the settings pickers.
use vstd::prelude::*;

use crate::config::{
    binding_view, AppConfig, AppConfigView, AppTheme, Binding, BindingView, MovementDistance, MovementMode,
};
use crate::events::{AppEvent, AppEventView};
use crate::input::BindTarget;

verus! {

/// The position of a theme in [`AppTheme::ALL`].
pub open spec fn theme_index(t: AppTheme) -> int {
    match t {
        AppTheme::System => 0,
        AppTheme::Light => 1,
        AppTheme::Dark => 2,
        AppTheme::OledBlack => 3,
        AppTheme::GentleGecko => 4,
        AppTheme::BlackKnight => 5,
        AppTheme::Diamond => 6,
        AppTheme::Dreams => 7,
        AppTheme::Paranoid => 8,
        AppTheme::RedVelvet => 9,
        AppTheme::Subspace => 10,
        AppTheme::Tiefling => 11,
        AppTheme::Vibes => 12,
    }
}

/// The theme at a position of [`AppTheme::ALL`].
pub open spec fn theme_at(i: int) -> AppTheme {
    if i == 0 {
        AppTheme::System
    } else if i == 1 {
        AppTheme::Light
    } else if i == 2 {
        AppTheme::Dark
    } else if i == 3 {
        AppTheme::OledBlack
    } else if i == 4 {
        AppTheme::GentleGecko
    } else if i == 5 {
        AppTheme::BlackKnight
    } else if i == 6 {
        AppTheme::Diamond
    } else if i == 7 {
        AppTheme::Dreams
    } else if i == 8 {
        AppTheme::Paranoid
    } else if i == 9 {
        AppTheme::RedVelvet
    } else if i == 10 {
        AppTheme::Subspace
    } else if i == 11 {
        AppTheme::Tiefling
    } else {
        AppTheme::Vibes
    }
}

fn index_of_theme(t: AppTheme) -> (r: u8)
    ensures
        r == theme_index(t),
{
    match t {
        AppTheme::System => 0,
        AppTheme::Light => 1,
        AppTheme::Dark => 2,
        AppTheme::OledBlack => 3,
        AppTheme::GentleGecko => 4,
        AppTheme::BlackKnight => 5,
        AppTheme::Diamond => 6,
        AppTheme::Dreams => 7,
        AppTheme::Paranoid => 8,
        AppTheme::RedVelvet => 9,
        AppTheme::Subspace => 10,
        AppTheme::Tiefling => 11,
        AppTheme::Vibes => 12,
    }
}

fn theme_from_index(i: u8) -> (r: AppTheme)
    requires
        i < 13,
    ensures
        r == theme_at(i as int),
{
    if i == 0 {
        AppTheme::System
    } else if i == 1 {
        AppTheme::Light
    } else if i == 2 {
        AppTheme::Dark
    } else if i == 3 {
        AppTheme::OledBlack
    } else if i == 4 {
        AppTheme::GentleGecko
    } else if i == 5 {
        AppTheme::BlackKnight
    } else if i == 6 {
        AppTheme::Diamond
    } else if i == 7 {
        AppTheme::Dreams
    } else if i == 8 {
        AppTheme::Paranoid
    } else if i == 9 {
        AppTheme::RedVelvet
    } else if i == 10 {
        AppTheme::Subspace
    } else if i == 11 {
        AppTheme::Tiefling
    } else {
        AppTheme::Vibes
    }
}

/// `(index + direction)` reduced into `0..len`, the Euclidean remainder.
fn wrap_index(index: u8, direction: isize, len: u8) -> (r: u8)
    requires
        len > 0,
        index < len,
    ensures
        r == (index + direction) % (len as int),
        r < len,
{
    let x: i128 = index as i128 + direction as i128;
    let n: i128 = len as i128;
    if x >= 0 {
        let m = (x as u128) % (len as u128);
        proof {
            assert(m == (x as int) % (len as int));
        }
        m as u8
    } else {
        let p = ((-x) as u128) % (len as u128);
        let r: u128 = if p == 0 { 0 } else { len as u128 - p };
        proof {
            let xi = x as int;
            let li = len as int;
            assert(p == (-xi) % li);
            assert(r == xi % li) by (nonlinear_arith)
                requires
                    xi < 0,
                    li > 0,
                    p == (-xi) % li,
                    r == (if p == 0 { 0 } else { li - p }),
            {
                let q = (-xi) / li;
                assert(-xi == q * li + p);
                if p == 0 {
                    assert(xi == (-q) * li);
                } else {
                    assert(xi == (-q - 1) * li + (li - p));
                }
            }
        }
        r as u8
    }
}

/// The theme `direction` steps from `current` in the settings list, wrapping around.
pub fn adjacent_theme(current: AppTheme, direction: isize) -> (r: AppTheme)
    ensures
        r == theme_at((theme_index(current) + direction) % 13),
{
    let i = wrap_index(index_of_theme(current), direction, 13);
    theme_from_index(i)
}

/// The position of a distance in [`MovementDistance::ALL`].
pub open spec fn distance_index(d: MovementDistance) -> int {
    match d {
        MovementDistance::Default => 0,
        MovementDistance::EdgeToEdge => 1,
        MovementDistance::Random => 2,
    }
}

/// The distance at a position of [`MovementDistance::ALL`].
pub open spec fn distance_at(i: int) -> MovementDistance {
    if i == 0 {
        MovementDistance::Default
    } else if i == 1 {
        MovementDistance::EdgeToEdge
    } else {
        MovementDistance::Random
    }
}

/// The distance `direction` steps from `current` in the settings list, wrapping around.
pub fn adjacent_distance(current: MovementDistance, direction: isize) -> (r: MovementDistance)
    ensures
        r == distance_at((distance_index(current) + direction) % 3),
{
    let index: u8 = match current {
        MovementDistance::Default => 0,
        MovementDistance::EdgeToEdge => 1,
        MovementDistance::Random => 2,
    };
    let i = wrap_index(index, direction, 3);
    if i == 0 {
        MovementDistance::Default
    } else if i == 1 {
        MovementDistance::EdgeToEdge
    } else {
        MovementDistance::Random
    }
}

/// Stepping forward then back through a picker returns to where it started.
pub proof fn lemma_adjacent_theme_round_trip(t: AppTheme)
    ensures
        theme_at((theme_index(theme_at((theme_index(t) + 1) % 13)) - 1) % 13) == t,
{
}

/// The settings after binding `b` to `target`: the other action loses the
/// binding if it had the same one.
pub open spec fn bound(config: AppConfigView, target: BindTarget, b: BindingView) -> AppConfigView {
    match target {
        BindTarget::Start => AppConfigView {
            start_binding: Some(b),
            stop_binding: if config.stop_binding == Some(b) { None } else { config.stop_binding },
            ..config
        },
        BindTarget::Stop => AppConfigView {
            stop_binding: Some(b),
            start_binding: if config.start_binding == Some(b) { None } else { config.start_binding },
            ..config
        },
    }
}

fn same_slot(slot: &Option<Binding>, b: &Binding) -> (r: bool)
    ensures
        r == (binding_view(*slot) == Some(b@)),
{
    match slot {
        Some(s) => s.same_as(b),
        None => false,
    }
}

/// Bind `binding` to `target`, taking it away from the other action if it
/// was bound there. Returns the status line to show.
pub fn set_binding(config: &mut AppConfig, target: BindTarget, binding: Binding) -> (status: String)
    ensures
        final(config)@ == bound(old(config)@, target, binding@),
        status@ == match target {
            BindTarget::Start => "Start bound to "@ + binding@.label + "."@,
            BindTarget::Stop => "Stop bound to "@ + binding@.label + "."@,
        },
{
    let mut status = match target {
        BindTarget::Start => String::from_str("Start bound to "),
        BindTarget::Stop => String::from_str("Stop bound to "),
    };
    status.append(binding.display_label());
    status.append(".");
    match target {
        BindTarget::Start => {
            if same_slot(&config.stop_binding, &binding) {
                config.stop_binding = None;
            }
            config.start_binding = Some(binding);
        },
        BindTarget::Stop => {
            if same_slot(&config.start_binding, &binding) {
                config.start_binding = None;
            }
            config.stop_binding = Some(binding);
        },
    }
    status
}

/// After a binding is assigned, start and stop never share it: one binding
/// cannot both start and stop the jiggler.
pub proof fn lemma_binding_never_shared(config: AppConfigView, target: BindTarget, b: BindingView)
    ensures
        ({
            let after = bound(config, target, b);
            match target {
                BindTarget::Start => after.start_binding == Some(b) && after.stop_binding != Some(b),
                BindTarget::Stop => after.stop_binding == Some(b) && after.start_binding != Some(b),
            }
        }),
{
}

/// Binding one action leaves everything else alone: the other action keeps
/// its binding unless it was this very binding, and movement mode, distance
/// and theme are untouched.
pub proof fn lemma_binding_keeps_other(config: AppConfigView, target: BindTarget, b: BindingView)
    ensures
        ({
            let after = bound(config, target, b);
            &&& target == BindTarget::Stop && config.start_binding != Some(b)
                ==> after.start_binding == config.start_binding
            &&& target == BindTarget::Start && config.stop_binding != Some(b)
                ==> after.stop_binding == config.stop_binding
            &&& target == BindTarget::Stop && config.start_binding == Some(b) ==> after.start_binding is None
            &&& target == BindTarget::Start && config.stop_binding == Some(b) ==> after.stop_binding is None
            &&& after.movement_mode == config.movement_mode
            &&& after.distance == config.distance
            &&& after.theme == config.theme
        }),
{
}

/// The status line after the movement mode changes.
pub fn mode_status(mode: MovementMode) -> (r: String)
    ensures
        r@ == "Movement set to "@ + mode.label_text() + "."@,
{
    let mut s = String::from_str("Movement set to ");
    s.append(mode.label());
    s.append(".");
    s
}

/// The status line after the distance changes.
pub fn distance_status(distance: MovementDistance) -> (r: String)
    ensures
        r@ == "Distance set to "@ + distance.label_text() + "."@,
{
    let mut s = String::from_str("Distance set to ");
    s.append(distance.label());
    s.append(".");
    s
}

/// The status line after the theme changes.
pub fn theme_status(theme: AppTheme) -> (r: String)
    ensures
        r@ == "Theme set to "@ + theme.label_text() + "."@,
{
    let mut s = String::from_str("Theme set to ");
    s.append(theme.label());
    s.append(".");
    s
}

/// The prompt shown while waiting for a binding.
pub open spec fn capture_prompt_text(target: BindTarget) -> Seq<char> {
    match target {
        BindTarget::Start => "Press a key, shortcut, or mouse button for start (Esc cancels)."@,
        BindTarget::Stop => "Press a key, shortcut, or mouse button for stop (Esc cancels)."@,
    }
}

/// The prompt shown while waiting for a binding.
pub fn capture_prompt(target: BindTarget) -> (r: &'static str)
    ensures
        r@ == capture_prompt_text(target),
{
    match target {
        BindTarget::Start => "Press a key, shortcut, or mouse button for start (Esc cancels).",
        BindTarget::Stop => "Press a key, shortcut, or mouse button for stop (Esc cancels).",
    }
}

/// What the window must do after an event from the queue.
#[derive(Debug)]
pub enum EventAction {
    /// Nothing beyond the state change.
    Nothing,
    /// Assign the captured binding (see [`set_binding`]) and save.
    Bind(BindTarget, Binding),
    /// Set the running flag.
    SetRunning(bool),
    /// Bring the window back from the tray.
    ShowWindow,
    /// Close the window for good.
    Close,
}

/// What the window must do after a frame's checks.
#[derive(Clone, Copy, Debug, PartialEq, Eq, Structural)]
pub enum FrameAction {
    /// Nothing.
    Nothing,
    /// Cancel the close request and hide the window to the tray.
    CancelCloseAndHide,
    /// Hide the (minimized) window to the tray.
    Hide,
}

/// The window's status line and tray state.
pub struct AppModel {
    pub status: String,
    pub last_error: Option<String>,
    pub hidden_to_tray: bool,
    pub restoring_from_tray: bool,
    pub quit_requested: bool,
}

pub open spec fn text_view(s: Option<String>) -> Option<Seq<char>> {
    match s {
        Some(s) => Some(s@),
        None => None,
    }
}

impl AppModel {
    /// A window that has just opened.
    pub fn new() -> (r: AppModel)
        ensures
            r.status@ == "Idle."@,
            r.last_error is None,
            !r.hidden_to_tray && !r.restoring_from_tray && !r.quit_requested,
    {
        AppModel {
            status: String::from_str("Idle."),
            last_error: None,
            hidden_to_tray: false,
            restoring_from_tray: false,
            quit_requested: false,
        }
    }

    /// Start movement from the window or the tray.
    pub fn start(&mut self)
        ensures
            final(self).status@ == "Running."@,
            final(self).last_error is None,
            final(self).hidden_to_tray == old(self).hidden_to_tray,
            final(self).restoring_from_tray == old(self).restoring_from_tray,
            final(self).quit_requested == old(self).quit_requested,
    {
        self.status = String::from_str("Running.");
        self.last_error = None;
    }

    /// Stop movement from the window or the tray; an error shown stays.
    pub fn stop(&mut self)
        ensures
            final(self).status@ == "Stopped."@,
            text_view(final(self).last_error) == text_view(old(self).last_error),
            final(self).hidden_to_tray == old(self).hidden_to_tray,
            final(self).restoring_from_tray == old(self).restoring_from_tray,
            final(self).quit_requested == old(self).quit_requested,
    {
        self.status = String::from_str("Stopped.");
    }

    /// The window comes back from the tray.
    pub fn show_window(&mut self)
        ensures
            !final(self).hidden_to_tray,
            final(self).restoring_from_tray,
            final(self).status@ == old(self).status@,
            text_view(final(self).last_error) == text_view(old(self).last_error),
            final(self).quit_requested == old(self).quit_requested,
    {
        self.hidden_to_tray = false;
        self.restoring_from_tray = true;
    }

    /// The window goes to the tray with the given status line.
    pub fn hide_to_tray(&mut self, status: &str)
        ensures
            final(self).hidden_to_tray,
            final(self).status@ == status@,
            text_view(final(self).last_error) == text_view(old(self).last_error),
            final(self).restoring_from_tray == old(self).restoring_from_tray,
            final(self).quit_requested == old(self).quit_requested,
    {
        self.hidden_to_tray = true;
        self.status = String::from_str(status);
    }

    /// Record the outcome of saving the settings: the error shown is the
    /// failure, or cleared on success.
    pub fn record_save(&mut self, failure: Option<String>)
        ensures
            text_view(final(self).last_error) == match failure {
                Some(e) => Some("Could not save config: "@ + e@),
                None => None,
            },
            final(self).status@ == old(self).status@,
            final(self).hidden_to_tray == old(self).hidden_to_tray,
            final(self).restoring_from_tray == old(self).restoring_from_tray,
            final(self).quit_requested == old(self).quit_requested,
    {
        self.last_error = match failure {
            Some(e) => {
                let mut s = String::from_str("Could not save config: ");
                s.append(e.as_str());
                Some(s)
            },
            None => None,
        };
    }

    /// Take one event from the queue.
    pub fn handle_event(&mut self, event: AppEvent) -> (r: EventAction)
        ensures
            match event@ {
                AppEventView::BindingCaptured(t, b) => r matches EventAction::Bind(t2, b2) && t2 == t && b2@ == b
                    && final(self).status@ == old(self).status@
                    && text_view(final(self).last_error) == text_view(old(self).last_error),
                AppEventView::StartRequested => r matches EventAction::SetRunning(true)
                    && final(self).status@ == "Running."@ && final(self).last_error is None,
                AppEventView::StopRequested => r matches EventAction::SetRunning(false)
                    && final(self).status@ == "Stopped."@
                    && text_view(final(self).last_error) == text_view(old(self).last_error),
                AppEventView::ShowWindow => r matches EventAction::ShowWindow
                    && !final(self).hidden_to_tray && final(self).restoring_from_tray,
                AppEventView::QuitRequested => r matches EventAction::Close && final(self).quit_requested,
                AppEventView::Status(s) => r matches EventAction::Nothing && final(self).status@ == s
                    && final(self).last_error is None,
                AppEventView::Error(e) => r matches EventAction::Nothing && final(self).status@ == "Stopped."@
                    && text_view(final(self).last_error) == Some(e),
            },
            !(event@ is ShowWindow) ==> final(self).hidden_to_tray == old(self).hidden_to_tray
                && final(self).restoring_from_tray == old(self).restoring_from_tray,
            !(event@ is QuitRequested) ==> final(self).quit_requested == old(self).quit_requested,
    {
        match event {
            AppEvent::BindingCaptured(target, binding) => EventAction::Bind(target, binding),
            AppEvent::StartRequested => {
                self.start();
                EventAction::SetRunning(true)
            },
            AppEvent::StopRequested => {
                self.stop();
                EventAction::SetRunning(false)
            },
            AppEvent::ShowWindow => {
                self.show_window();
                EventAction::ShowWindow
            },
            AppEvent::QuitRequested => {
                self.quit_requested = true;
                EventAction::Close
            },
            AppEvent::Status(s) => {
                self.status = s;
                self.last_error = None;
                EventAction::Nothing
            },
            AppEvent::Error(e) => {
                self.status = String::from_str("Stopped.");
                self.last_error = Some(e);
                EventAction::Nothing
            },
        }
    }

    /// The per-frame window check: a close request that is not a quit hides
    /// the window to the tray instead; while coming back from the tray, wait
    /// until the window is no longer minimized; otherwise a minimized window
    /// goes to the tray.
    pub fn frame(&mut self, close_requested: bool, minimized: Option<bool>) -> (r: FrameAction)
        ensures
            if close_requested && !old(self).quit_requested {
                &&& r == FrameAction::CancelCloseAndHide
                &&& final(self).hidden_to_tray
                &&& final(self).status@ == "Hidden to tray."@
                &&& final(self).restoring_from_tray == old(self).restoring_from_tray
            } else if old(self).restoring_from_tray {
                &&& r == FrameAction::Nothing
                &&& final(self).restoring_from_tray == (minimized == Some(true))
                &&& final(self).hidden_to_tray == old(self).hidden_to_tray
                &&& final(self).status@ == old(self).status@
            } else if minimized == Some(true) && !old(self).hidden_to_tray {
                &&& r == FrameAction::Hide
                &&& final(self).hidden_to_tray
                &&& final(self).status@ == "Minimized to tray."@
                &&& final(self).restoring_from_tray == old(self).restoring_from_tray
            } else {
                &&& r == FrameAction::Nothing
                &&& final(self).hidden_to_tray == old(self).hidden_to_tray
                &&& final(self).restoring_from_tray == old(self).restoring_from_tray
                &&& final(self).status@ == old(self).status@
            },
            final(self).quit_requested == old(self).quit_requested,
            text_view(final(self).last_error) == text_view(old(self).last_error),
    {
        if close_requested && !self.quit_requested {
            self.hide_to_tray("Hidden to tray.");
            FrameAction::CancelCloseAndHide
        } else if self.restoring_from_tray {
            if minimized != Some(true) {
                self.restoring_from_tray = false;
            }
            FrameAction::Nothing
        } else if minimized == Some(true) && !self.hidden_to_tray {
            self.hide_to_tray("Minimized to tray.");
            FrameAction::Hide
        } else {
            FrameAction::Nothing
        }
    }
}

} // verus!
