use realistic_mouse_jiggler::config::{
    AppConfig, AppTheme, Binding, BindingKind, MovementDistance, MovementMode,
};

fn mouse(label: &str) -> Binding {
    Binding { kind: BindingKind::MouseButton, code: format!("m:{label}"), label: label.to_string() }
}

#[test]
fn labels() {
    assert_eq!(MovementMode::Realistic.label(), "Realistic");
    assert_eq!(MovementMode::Simple.label(), "Simple");
    assert_eq!(AppTheme::System.label(), "Follow system");
    assert_eq!(AppTheme::OledBlack.label(), "OLED Black");
    assert_eq!(AppTheme::ALL.len(), 13);
    assert_eq!(MovementDistance::EdgeToEdge.label(), "Edge-to-Edge");
    assert_eq!(MovementDistance::ALL.len(), 3);
}

#[test]
fn left_click_is_the_last_chord_part() {
    assert!(mouse("Mouse Left").is_left_click());
    assert!(mouse("Ctrl+Mouse Left").is_left_click());
    assert!(!mouse("Mouse Left+Ctrl").is_left_click());
    assert!(!mouse("Mouse Right").is_left_click());
    assert!(!mouse("XMouse Left").is_left_click());
    let key = Binding { kind: BindingKind::Key, code: "k".to_string(), label: "Mouse Left".to_string() };
    assert!(!key.is_left_click());
}

#[test]
fn display_label_is_the_label() {
    assert_eq!(mouse("Ctrl+Mouse Middle").display_label(), "Ctrl+Mouse Middle");
}

#[test]
fn defaults() {
    let c = AppConfig::default();
    assert_eq!(c.movement_mode, MovementMode::Realistic);
    assert_eq!(c.distance, MovementDistance::Default);
    assert_eq!(c.theme, AppTheme::System);
    assert!(c.start_binding.is_none() && c.stop_binding.is_none());
}

#[test]
fn loaded_left_click_bindings_are_dropped() {
    let mut c = AppConfig::default();
    c.theme = AppTheme::Dreams;
    c.start_binding = Some(mouse("Mouse Left"));
    c.stop_binding = Some(mouse("Mouse Middle"));
    let c = c.without_left_click_bindings();
    assert!(c.start_binding.is_none());
    assert_eq!(c.stop_binding.unwrap().label, "Mouse Middle");
    assert_eq!(c.theme, AppTheme::Dreams);
}

#[test]
fn same_as_compares_every_field() {
    let a = mouse("Mouse Middle");
    assert!(a.same_as(&a.duplicate()));
    let mut b = a.duplicate();
    b.code = "other".to_string();
    assert!(!a.same_as(&b));
}
