//! Global start/stop bindings: capturing a new binding, and what a pressed
//! binding does.
//!
//! The platform listeners (Linux input devices, Windows hooks, the macOS event
//! tap) turn raw key and button events into [`Binding`]s and hand each one to
//! [`handle_binding`] together with the capture state, the current settings
//! and a monotonic clock reading in milliseconds.
use vstd::prelude::*;

use crate::config::{AppConfig, AppConfigView, Binding, BindingKind, BindingView};
use crate::events::{status, AppEvent, AppEventView};
use crate::text::{decimal, join, join_strings, push_decimal, str_equal};

verus! {

/// Which binding a capture is for.
#[derive(Clone, Copy, Debug, PartialEq, Eq, Structural)]
pub enum BindTarget {
    Start,
    Stop,
}

/// A pending request to capture the next binding pressed.
#[derive(Clone, Copy, Debug, PartialEq, Eq, Structural)]
pub struct CaptureRequest {
    pub target: BindTarget,
}

/// After a binding is captured, bindings are ignored this long, so the key
/// that was just captured does not also fire its new action.
pub const CAPTURED_BINDING_SUPPRESS_MS: u64 = 2000;

/// Shared capture state of the listeners and the window.
#[derive(Debug)]
pub struct CaptureState {
    /// The capture the window asked for, if any.
    pub request: Option<CaptureRequest>,
    suppress_until_ms: Option<u64>,
}

/// The mathematical value of a [`CaptureState`].
pub struct CaptureView {
    pub request: Option<CaptureRequest>,
    pub suppress_until_ms: Option<u64>,
}

impl View for CaptureState {
    type V = CaptureView;

    closed spec fn view(&self) -> CaptureView {
        CaptureView { request: self.request, suppress_until_ms: self.suppress_until_ms }
    }
}

impl CaptureState {
    /// No capture requested and nothing suppressed.
    pub fn new() -> (r: CaptureState)
        ensures
            r@ == (CaptureView { request: None, suppress_until_ms: None }),
    {
        CaptureState { request: None, suppress_until_ms: None }
    }

    /// Ask for the next binding pressed to be captured for `target`; what
    /// is being ignored after an earlier capture stays ignored.
    pub fn arm(&mut self, target: BindTarget)
        ensures
            final(self)@ == (CaptureView {
                request: Some(CaptureRequest { target }),
                suppress_until_ms: old(self)@.suppress_until_ms,
            }),
    {
        self.request = Some(CaptureRequest { target });
    }

    /// The request, seen through the view.
    pub fn request(&self) -> (r: Option<CaptureRequest>)
        ensures
            r == self@.request,
    {
        self.request
    }
}

impl Default for CaptureState {
    fn default() -> (r: CaptureState)
        ensures
            r@ == (CaptureView { request: None, suppress_until_ms: None }),
    {
        CaptureState::new()
    }
}

/// When the suppression started at `now_ms` ends.
pub open spec fn suppress_deadline(now_ms: nat) -> u64 {
    if now_ms + CAPTURED_BINDING_SUPPRESS_MS <= u64::MAX {
        (now_ms + CAPTURED_BINDING_SUPPRESS_MS) as u64
    } else {
        u64::MAX
    }
}

/// Bindings are still being ignored at `now_ms`.
pub open spec fn suppressed(c: CaptureView, now_ms: nat) -> bool {
    c.suppress_until_ms matches Some(until) && now_ms < until
}

/// Whether bindings are ignored at `now_ms`; an expired suppression is cleared.
pub fn input_is_suppressed(state: &mut CaptureState, now_ms: u64) -> (r: bool)
    ensures
        r == suppressed(old(state)@, now_ms as nat),
        final(state)@ == if r { old(state)@ } else { CaptureView { suppress_until_ms: None, ..old(state)@ } },
{
    match state.suppress_until_ms {
        None => false,
        Some(until) => {
            if now_ms >= until {
                state.suppress_until_ms = None;
                false
            } else {
                true
            }
        },
    }
}

/// What handling a binding asks of the caller.
#[derive(Debug)]
pub struct BindingOutcome {
    /// The new value of the running flag, or `None` to leave it alone.
    pub running: Option<bool>,
    /// An event for the window, if any.
    pub event: Option<AppEvent>,
}

pub open spec fn event_view(e: Option<AppEvent>) -> Option<AppEventView> {
    match e {
        Some(e) => Some(e@),
        None => None,
    }
}

/// What a pressed binding does according to the settings: the start binding
/// starts, the stop binding stops, anything else does nothing.
pub open spec fn configured_action(b: BindingView, config: AppConfigView) -> (Option<bool>, Option<AppEventView>) {
    if config.start_binding == Some(b) {
        (Some(true), Some(AppEventView::Status("Running."@)))
    } else if config.stop_binding == Some(b) {
        (Some(false), Some(AppEventView::Status("Stopped."@)))
    } else {
        (None, None)
    }
}

/// What a pressed binding does, given the capture state before, the settings
/// (`None` when they cannot be read) and the time: the capture state after,
/// the new running flag, and the event for the window.
pub open spec fn binding_effect(
    b: BindingView,
    c: CaptureView,
    config: Option<AppConfigView>,
    now_ms: nat,
) -> (CaptureView, Option<bool>, Option<AppEventView>) {
    if b.is_left_click() {
        (
            c,
            None,
            if c.request is Some {
                Some(AppEventView::Status("Left click cannot be used as a binding."@))
            } else {
                None
            },
        )
    } else if c.request is Some {
        if b.label == "Escape"@ {
            (
                CaptureView { request: None, ..c },
                None,
                Some(AppEventView::Status("Binding capture cancelled."@)),
            )
        } else {
            (
                CaptureView { request: None, suppress_until_ms: Some(suppress_deadline(now_ms)) },
                None,
                Some(AppEventView::BindingCaptured(c.request->0.target, b)),
            )
        }
    } else if suppressed(c, now_ms) {
        (c, None, None)
    } else {
        let after = CaptureView { suppress_until_ms: None, ..c };
        match config {
            None => (after, None, None),
            Some(cfg) => (after, configured_action(b, cfg).0, configured_action(b, cfg).1),
        }
    }
}

pub open spec fn config_view(config: Option<&AppConfig>) -> Option<AppConfigView> {
    match config {
        Some(c) => Some(c@),
        None => None,
    }
}

fn matches_binding(slot: &Option<Binding>, binding: &Binding) -> (r: bool)
    ensures
        r == (crate::config::binding_view(*slot) == Some(binding@)),
{
    match slot {
        Some(s) => s.same_as(binding),
        None => false,
    }
}

/// What a pressed binding does according to the settings alone.
pub fn binding_action(binding: &Binding, config: &AppConfig) -> (r: BindingOutcome)
    ensures
        (r.running, event_view(r.event)) == configured_action(binding@, config@),
{
    if matches_binding(&config.start_binding, binding) {
        BindingOutcome { running: Some(true), event: Some(status("Running.")) }
    } else if matches_binding(&config.stop_binding, binding) {
        BindingOutcome { running: Some(false), event: Some(status("Stopped.")) }
    } else {
        BindingOutcome { running: None, event: None }
    }
}

/// Handle one pressed binding.
///
/// Left click is never a binding: it only draws a note while a capture is
/// pending. A pending capture takes the binding (Escape cancels it) and then
/// ignores bindings for [`CAPTURED_BINDING_SUPPRESS_MS`]. Otherwise, unless
/// bindings are being ignored, the start binding starts and the stop binding
/// stops.
pub fn handle_binding(
    binding: Binding,
    capture: &mut CaptureState,
    config: Option<&AppConfig>,
    now_ms: u64,
) -> (r: BindingOutcome)
    ensures
        (final(capture)@, r.running, event_view(r.event)) == binding_effect(
            binding@,
            old(capture)@,
            config_view(config),
            now_ms as nat,
        ),
{
    if binding.is_left_click() {
        let is_capturing = capture.request.is_some();
        let event = if is_capturing {
            Some(status("Left click cannot be used as a binding."))
        } else {
            None
        };
        return BindingOutcome { running: None, event };
    }
    if let Some(request) = capture.request {
        capture.request = None;
        if str_equal(binding.label.as_str(), "Escape") {
            return BindingOutcome { running: None, event: Some(status("Binding capture cancelled.")) };
        } else {
            let until = if now_ms <= u64::MAX - CAPTURED_BINDING_SUPPRESS_MS {
                now_ms + CAPTURED_BINDING_SUPPRESS_MS
            } else {
                u64::MAX
            };
            capture.suppress_until_ms = Some(until);
            return BindingOutcome {
                running: None,
                event: Some(AppEvent::BindingCaptured(request.target, binding)),
            };
        }
    }
    if input_is_suppressed(capture, now_ms) {
        return BindingOutcome { running: None, event: None };
    }
    match config {
        None => BindingOutcome { running: None, event: None },
        Some(cfg) => binding_action(&binding, cfg),
    }
}

/// Which modifier keys are held.
#[derive(Clone, Copy, Debug, Default, PartialEq, Eq, Structural)]
pub struct Modifiers {
    pub ctrl: bool,
    pub alt: bool,
    pub shift: bool,
    pub meta: bool,
}

/// The names of the held modifiers, in the order Ctrl, Alt, Shift, Meta:
/// lower case for codes, capitalised for labels.
pub open spec fn modifier_names(m: Modifiers, for_code: bool) -> Seq<Seq<char>> {
    (if m.ctrl { seq![if for_code { "ctrl"@ } else { "Ctrl"@ }] } else { Seq::empty() })
        + (if m.alt { seq![if for_code { "alt"@ } else { "Alt"@ }] } else { Seq::empty() })
        + (if m.shift { seq![if for_code { "shift"@ } else { "Shift"@ }] } else { Seq::empty() })
        + (if m.meta { seq![if for_code { "meta"@ } else { "Meta"@ }] } else { Seq::empty() })
}

/// The binding for a key or button pressed with modifiers: the code is
/// `prefix:` followed by the modifier codes and the numeric code joined with
/// `+`; the label is the modifier labels and the key's label joined with `+`.
pub open spec fn chord(kind: BindingKind, prefix: Seq<char>, code: nat, label: Seq<char>, m: Modifiers) -> BindingView {
    BindingView {
        kind,
        code: prefix + ":"@ + join(modifier_names(m, true).push(decimal(code)), "+"@),
        label: join(modifier_names(m, false).push(label), "+"@),
    }
}

fn push_name(names: &mut Vec<String>, held: bool, name: &str)
    ensures
        final(names).deep_view() == old(names).deep_view() + (if held { seq![name@] } else { Seq::empty() }),
{
    if held {
        let ghost before = names.deep_view();
        names.push(String::from_str(name));
        proof {
            assert(names.deep_view() =~= before + seq![name@]);
        }
    } else {
        proof {
            assert(names.deep_view() =~= names.deep_view() + Seq::<Seq<char>>::empty());
        }
    }
}

fn modifier_strings(m: Modifiers, for_code: bool) -> (r: Vec<String>)
    ensures
        r.deep_view() == modifier_names(m, for_code),
{
    let mut names: Vec<String> = Vec::new();
    proof {
        assert(names.deep_view() =~= Seq::<Seq<char>>::empty());
    }
    push_name(&mut names, m.ctrl, if for_code { "ctrl" } else { "Ctrl" });
    push_name(&mut names, m.alt, if for_code { "alt" } else { "Alt" });
    push_name(&mut names, m.shift, if for_code { "shift" } else { "Shift" });
    push_name(&mut names, m.meta, if for_code { "meta" } else { "Meta" });
    proof {
        assert(names.deep_view() =~= modifier_names(m, for_code));
    }
    names
}

/// The binding for `label` (numeric `code`) pressed with `modifiers`, e.g.
/// `windows-key:ctrl+alt+118` labelled `Ctrl+Alt+F7`.
pub fn chord_binding(kind: BindingKind, code_prefix: &str, code: u32, label: String, modifiers: Modifiers) -> (r: Binding)
    ensures
        r@ == chord(kind, code_prefix@, code as nat, label@, modifiers),
{
    let mut codes = modifier_strings(modifiers, true);
    let mut number = String::new();
    push_decimal(&mut number, code as u64);
    let ghost codes_before = codes.deep_view();
    codes.push(number);
    let mut labels = modifier_strings(modifiers, false);
    let ghost labels_before = labels.deep_view();
    labels.push(label);
    proof {
        assert(codes.deep_view() =~= codes_before.push(decimal(code as nat)));
        assert(labels.deep_view() =~= labels_before.push(label@));
    }
    let mut full_code = String::from_str(code_prefix);
    full_code.append(":");
    let joined = join_strings(&codes, "+");
    full_code.append(joined.as_str());
    let full_label = join_strings(&labels, "+");
    Binding { kind, code: full_code, label: full_label }
}

/// Left click never starts or stops the jiggler, and never becomes a binding:
/// whatever the settings and the capture state, handling it leaves the running
/// flag and the capture state alone.
pub proof fn lemma_left_click_is_inert(b: BindingView, c: CaptureView, config: Option<AppConfigView>, now_ms: nat)
    requires
        b.is_left_click(),
    ensures
        binding_effect(b, c, config, now_ms).0 == c,
        binding_effect(b, c, config, now_ms).1 is None,
        !(binding_effect(b, c, config, now_ms).2 matches Some(AppEventView::BindingCaptured(_, _))),
{
}

/// A binding that was just captured does not also fire: any binding pressed
/// less than [`CAPTURED_BINDING_SUPPRESS_MS`] later, with no new capture
/// pending, changes nothing and sends nothing, whatever the settings say.
pub proof fn lemma_capture_suppresses_followup(
    captured: BindingView,
    next: BindingView,
    c: CaptureView,
    config1: Option<AppConfigView>,
    config2: Option<AppConfigView>,
    t1: nat,
    t2: nat,
)
    requires
        !captured.is_left_click(),
        captured.label != "Escape"@,
        c.request is Some,
        t1 <= t2 < t1 + CAPTURED_BINDING_SUPPRESS_MS,
        t1 + CAPTURED_BINDING_SUPPRESS_MS <= u64::MAX,
    ensures
        ({
            let after = binding_effect(captured, c, config1, t1).0;
            &&& binding_effect(captured, c, config1, t1).1 is None
            &&& binding_effect(captured, c, config1, t1).2 == Some(AppEventView::BindingCaptured(c.request->0.target, captured))
            &&& binding_effect(next, after, config2, t2).1 is None
            &&& (next.is_left_click() || binding_effect(next, after, config2, t2).2 is None)
        }),
{
}

/// Escape cancels a pending capture: the request is dropped and nothing is bound.
pub proof fn lemma_escape_cancels_capture(b: BindingView, c: CaptureView, config: Option<AppConfigView>, now_ms: nat)
    requires
        !b.is_left_click(),
        b.label == "Escape"@,
        c.request is Some,
    ensures
        binding_effect(b, c, config, now_ms).0.request is None,
        binding_effect(b, c, config, now_ms).1 is None,
        binding_effect(b, c, config, now_ms).2 == Some(AppEventView::Status("Binding capture cancelled."@)),
{
}

} // verus!
