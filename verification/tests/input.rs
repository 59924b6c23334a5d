use realistic_mouse_jiggler::config::{AppConfig, Binding, BindingKind};
use realistic_mouse_jiggler::events::AppEvent;
use realistic_mouse_jiggler::input::{
    binding_action, chord_binding, handle_binding, input_is_suppressed, BindTarget, CaptureState,
    Modifiers, CAPTURED_BINDING_SUPPRESS_MS,
};

fn binding(label: &str) -> Binding {
    Binding {
        kind: BindingKind::Key,
        code: format!("test:{label}"),
        label: label.to_string(),
    }
}

fn mouse_binding(label: &str) -> Binding {
    Binding {
        kind: BindingKind::MouseButton,
        code: format!("test-mouse:{label}"),
        label: label.to_string(),
    }
}

fn armed_capture() -> CaptureState {
    let mut state = CaptureState::new();
    state.arm(BindTarget::Start);
    assert_eq!(state.request.map(|r| r.target), Some(BindTarget::Start));
    state
}

#[test]
fn capture_rejects_left_click() {
    let config = AppConfig::default();
    let mut capture = armed_capture();
    let outcome = handle_binding(mouse_binding("Mouse Left"), &mut capture, Some(&config), 0);
    assert!(matches!(outcome.event, Some(AppEvent::Status(_))));
    assert!(capture.request.is_some());
}

#[test]
fn capture_binds_immediate_regular_key() {
    let config = AppConfig::default();
    let mut capture = armed_capture();
    let outcome = handle_binding(binding("F6"), &mut capture, Some(&config), 0);
    match outcome.event.unwrap() {
        AppEvent::BindingCaptured(BindTarget::Start, bound) => assert_eq!(bound.label, "F6"),
        other => panic!("unexpected event: {other:?}"),
    }
    assert!(capture.request.is_none());
}

#[test]
fn escape_cancels_capture() {
    let config = AppConfig::default();
    let mut capture = armed_capture();
    let outcome = handle_binding(binding("Escape"), &mut capture, Some(&config), 0);
    match outcome.event.unwrap() {
        AppEvent::Status(_) => {}
        other => panic!("unexpected event: {other:?}"),
    }
    assert!(capture.request.is_none());
}

#[test]
fn captured_binding_does_not_fire_immediately_after_save() {
    let mut config = AppConfig::default();
    let mut capture = armed_capture();
    let bound = binding("Mouse Middle");
    let mut running = false;

    let outcome = handle_binding(bound.clone(), &mut capture, Some(&config), 1_000);
    match outcome.event.unwrap() {
        AppEvent::BindingCaptured(BindTarget::Start, captured) => {
            config.start_binding = Some(captured);
        }
        other => panic!("unexpected event: {other:?}"),
    }

    let outcome = handle_binding(bound, &mut capture, Some(&config), 1_000);
    if let Some(value) = outcome.running {
        running = value;
    }
    assert!(!running);
    assert!(outcome.event.is_none());
}

#[test]
fn left_click_cannot_activate_existing_binding() {
    let mut config = AppConfig::default();
    let mut capture = CaptureState::default();
    config.start_binding = Some(mouse_binding("Mouse Left"));
    let outcome = handle_binding(mouse_binding("Mouse Left"), &mut capture, Some(&config), 0);
    assert_eq!(outcome.running, None);
    assert!(outcome.event.is_none());
}

#[test]
fn modifier_chord_matches_as_one_binding() {
    let mut config = AppConfig::default();
    let mut capture = CaptureState::default();
    let chord = chord_binding(
        BindingKind::Key,
        "windows-key",
        0x76,
        "F7".to_string(),
        Modifiers {
            ctrl: true,
            alt: true,
            ..Default::default()
        },
    );
    assert_eq!(chord.code, "windows-key:ctrl+alt+118");
    assert_eq!(chord.label, "Ctrl+Alt+F7");
    config.stop_binding = Some(chord.clone());
    let mut running = true;

    let outcome = handle_binding(chord, &mut capture, Some(&config), 0);
    if let Some(value) = outcome.running {
        running = value;
    }
    assert!(!running);
    assert!(matches!(outcome.event, Some(AppEvent::Status(_))));
}

#[test]
fn suppression_ends_after_two_seconds() {
    let mut config = AppConfig::default();
    let mut capture = armed_capture();
    let key = binding("F8");
    let outcome = handle_binding(key.clone(), &mut capture, Some(&config), 5_000);
    assert!(matches!(outcome.event, Some(AppEvent::BindingCaptured(BindTarget::Start, _))));
    config.start_binding = Some(key.clone());
    let still = handle_binding(key.clone(), &mut capture, Some(&config), 5_000 + CAPTURED_BINDING_SUPPRESS_MS - 1);
    assert_eq!(still.running, None);
    let later = handle_binding(key, &mut capture, Some(&config), 5_000 + CAPTURED_BINDING_SUPPRESS_MS);
    assert_eq!(later.running, Some(true));
    match later.event.unwrap() {
        AppEvent::Status(s) => assert_eq!(s, "Running."),
        other => panic!("unexpected event: {other:?}"),
    }
    assert!(!input_is_suppressed(&mut capture, 0));
}

#[test]
fn unreadable_settings_do_nothing() {
    let mut capture = CaptureState::new();
    let outcome = handle_binding(binding("F9"), &mut capture, None, 0);
    assert_eq!(outcome.running, None);
    assert!(outcome.event.is_none());
}

#[test]
fn configured_stop_binding_stops() {
    let mut config = AppConfig::default();
    config.stop_binding = Some(binding("F10"));
    let outcome = binding_action(&binding("F10"), &config);
    assert_eq!(outcome.running, Some(false));
    match outcome.event.unwrap() {
        AppEvent::Status(s) => assert_eq!(s, "Stopped."),
        other => panic!("unexpected event: {other:?}"),
    }
    assert_eq!(binding_action(&binding("F11"), &config).running, None);
}

#[test]
fn chord_without_modifiers_is_plain() {
    let b = chord_binding(BindingKind::MouseButton, "linux-mouse", 274, "Mouse Middle".to_string(), Modifiers::default());
    assert_eq!(b.code, "linux-mouse:274");
    assert_eq!(b.label, "Mouse Middle");
    let all = Modifiers { ctrl: true, alt: true, shift: true, meta: true };
    let b = chord_binding(BindingKind::Key, "mac-key", 0, "A".to_string(), all);
    assert_eq!(b.code, "mac-key:ctrl+alt+shift+meta+0");
    assert_eq!(b.label, "Ctrl+Alt+Shift+Meta+A");
}
