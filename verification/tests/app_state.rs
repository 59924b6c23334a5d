use realistic_mouse_jiggler::app_state::{
    adjacent_distance, adjacent_theme, capture_prompt, distance_status, mode_status, set_binding, theme_status,
    AppModel, EventAction, FrameAction,
};
use realistic_mouse_jiggler::config::{AppConfig, AppTheme, Binding, BindingKind, MovementDistance, MovementMode};
use realistic_mouse_jiggler::events::AppEvent;
use realistic_mouse_jiggler::input::BindTarget;

fn key(label: &str) -> Binding {
    Binding { kind: BindingKind::Key, code: format!("k:{label}"), label: label.to_string() }
}

#[test]
fn adjacent_pickers_wrap_around() {
    assert_eq!(adjacent_theme(AppTheme::System, -1), AppTheme::Vibes);
    assert_eq!(adjacent_theme(AppTheme::Vibes, 1), AppTheme::System);
    assert_eq!(adjacent_theme(AppTheme::Light, 1), AppTheme::Dark);
    assert_eq!(adjacent_theme(AppTheme::Light, 27), AppTheme::Dark);
    assert_eq!(adjacent_distance(MovementDistance::Default, -1), MovementDistance::Random);
    assert_eq!(adjacent_distance(MovementDistance::Random, 1), MovementDistance::Default);
    assert_eq!(adjacent_distance(MovementDistance::Default, 1), MovementDistance::EdgeToEdge);
}

#[test]
fn binding_moves_between_actions() {
    let mut config = AppConfig::default();
    let s = set_binding(&mut config, BindTarget::Start, key("F6"));
    assert_eq!(s, "Start bound to F6.");
    let s = set_binding(&mut config, BindTarget::Stop, key("F6"));
    assert_eq!(s, "Stop bound to F6.");
    assert!(config.start_binding.is_none());
    assert_eq!(config.stop_binding.as_ref().unwrap().label, "F6");
    set_binding(&mut config, BindTarget::Start, key("F7"));
    assert_eq!(config.start_binding.as_ref().unwrap().label, "F7");
    assert_eq!(config.stop_binding.as_ref().unwrap().label, "F6");
}

#[test]
fn status_lines() {
    assert_eq!(mode_status(MovementMode::Simple), "Movement set to Simple.");
    assert_eq!(distance_status(MovementDistance::Random), "Distance set to Random.");
    assert_eq!(theme_status(AppTheme::RedVelvet), "Theme set to Red Velvet.");
    assert_eq!(capture_prompt(BindTarget::Stop), "Press a key, shortcut, or mouse button for stop (Esc cancels).");
}

#[test]
fn events_update_the_window() {
    let mut m = AppModel::new();
    assert_eq!(m.status, "Idle.");
    assert!(matches!(m.handle_event(AppEvent::Error("boom".to_string())), EventAction::Nothing));
    assert_eq!(m.status, "Stopped.");
    assert_eq!(m.last_error.as_deref(), Some("boom"));
    assert!(matches!(m.handle_event(AppEvent::StartRequested), EventAction::SetRunning(true)));
    assert_eq!(m.status, "Running.");
    assert!(m.last_error.is_none());
    assert!(matches!(m.handle_event(AppEvent::Status("ok".to_string())), EventAction::Nothing));
    assert_eq!(m.status, "ok");
    assert!(matches!(m.handle_event(AppEvent::QuitRequested), EventAction::Close));
    assert!(m.quit_requested);
    match m.handle_event(AppEvent::BindingCaptured(BindTarget::Stop, key("F2"))) {
        EventAction::Bind(BindTarget::Stop, b) => assert_eq!(b.label, "F2"),
        other => panic!("unexpected action: {other:?}"),
    }
    m.record_save(Some("disk full".to_string()));
    assert_eq!(m.last_error.as_deref(), Some("Could not save config: disk full"));
    m.record_save(None);
    assert!(m.last_error.is_none());
}

#[test]
fn closing_hides_to_tray_until_quit() {
    let mut m = AppModel::new();
    assert_eq!(m.frame(true, None), FrameAction::CancelCloseAndHide);
    assert!(m.hidden_to_tray);
    assert_eq!(m.status, "Hidden to tray.");
    assert!(matches!(m.handle_event(AppEvent::ShowWindow), EventAction::ShowWindow));
    assert!(!m.hidden_to_tray && m.restoring_from_tray);
    assert_eq!(m.frame(false, Some(true)), FrameAction::Nothing);
    assert!(m.restoring_from_tray);
    assert_eq!(m.frame(false, Some(false)), FrameAction::Nothing);
    assert!(!m.restoring_from_tray);
    assert_eq!(m.frame(false, Some(true)), FrameAction::Hide);
    assert_eq!(m.status, "Minimized to tray.");
    m.handle_event(AppEvent::QuitRequested);
    assert_eq!(m.frame(true, None), FrameAction::Nothing);
}
