use realistic_mouse_jiggler::config::BindingKind;
use realistic_mouse_jiggler::input::Modifiers;
use realistic_mouse_jiggler::linux_input::{
    extract_line_value, extract_quoted_field, input_device_candidates, key_label, linux_binding, linux_key_event,
    mouse_button_label, PressedModifiers, EV_KEY,
};
use realistic_mouse_jiggler::{mac_input, platform, windows_input};

#[test]
fn linux_labels() {
    assert_eq!(key_label(1).as_deref(), Some("Escape"));
    assert_eq!(key_label(43).as_deref(), Some("\\"));
    assert_eq!(key_label(88).as_deref(), Some("F12"));
    assert_eq!(key_label(55), None);
    assert_eq!(mouse_button_label(272).as_deref(), Some("Mouse Left"));
    assert_eq!(mouse_button_label(283).as_deref(), Some("Mouse Button 12"));
    assert_eq!(mouse_button_label(288), None);
}

#[test]
fn linux_modifiers_chord_the_next_key() {
    let mut mods = PressedModifiers::new();
    assert_eq!(linux_key_event(&mut mods, EV_KEY, 29, 1), None);
    assert_eq!(linux_key_event(&mut mods, EV_KEY, 56, 1), None);
    let b = linux_key_event(&mut mods, EV_KEY, 30, 1).unwrap();
    assert_eq!(b.code, "linux-key:ctrl+alt+30");
    assert_eq!(b.label, "Ctrl+Alt+A");
    assert_eq!(linux_key_event(&mut mods, EV_KEY, 30, 0), None);
    assert_eq!(linux_key_event(&mut mods, EV_KEY, 30, 2), None);
    assert_eq!(linux_key_event(&mut mods, 0x02, 30, 1), None);
    linux_key_event(&mut mods, EV_KEY, 29, 0);
    linux_key_event(&mut mods, EV_KEY, 56, 0);
    assert_eq!(mods.current(), Modifiers::default());
    let b = linux_binding(274, Modifiers::default()).unwrap();
    assert_eq!(b.kind, BindingKind::MouseButton);
    assert_eq!(b.code, "linux-mouse:274");
}

#[test]
fn linux_both_ctrl_keys_must_be_released() {
    let mut mods = PressedModifiers::new();
    assert!(mods.update(29, true));
    assert!(mods.update(97, true));
    assert!(mods.update(29, false));
    assert!(mods.current().ctrl);
    assert!(mods.update(97, false));
    assert!(!mods.current().ctrl);
    assert!(!mods.update(30, true));
}

const DEVICES: &str = "I: Bus=0011 Vendor=0001 Product=0001 Version=ab41\n\
N: Name=\"AT Translated Set 2 keyboard\"\n\
H: Handlers=sysrq kbd leds event3 \n\
B: EV=120013\n\
\n\
I: Bus=0003 Vendor=0000 Product=0000 Version=0000\n\
N: Name=\"ydotoold virtual device\"\n\
H: Handlers=kbd mouse2 event9\n\
B: EV=7\n\
\n\
N: Name=\"Power Button\"\n\
H: Handlers=event0\n\
B: EV=3\n\
\n\
N: Name=\"Lid Switch\"\n\
H: Handlers=event1\n\
B: EV=21\n\
\n\
N: Name=\"USB Mouse\"\n\
H: Handlers=mouse0 event5\n";

#[test]
fn input_devices_are_read_from_proc_listing() {
    let found = input_device_candidates(DEVICES);
    let found: Vec<(String, String)> = found.into_iter().map(|d| (d.path, d.name)).collect();
    assert_eq!(
        found,
        vec![
            ("/dev/input/event3".to_string(), "AT Translated Set 2 keyboard".to_string()),
            ("/dev/input/event0".to_string(), "Power Button".to_string()),
            ("/dev/input/event5".to_string(), "USB Mouse".to_string()),
        ]
    );
}

#[test]
fn device_fields_are_extracted() {
    let block = "N: Name=\"Mouse\"\nH: Handlers=  mouse0 event5  \nN: Name=\"Second\"";
    assert_eq!(extract_line_value(block, "H: Handlers=").as_deref(), Some("mouse0 event5"));
    assert_eq!(extract_quoted_field(block, "N: Name=").as_deref(), Some("Mouse"));
    assert_eq!(extract_quoted_field("N: Name=\"", "N: Name="), None);
    assert_eq!(extract_line_value(block, "B: EV="), None);
}

#[test]
fn windows_labels_and_events() {
    assert_eq!(windows_input::windows_key_label(0x76), "F7");
    assert_eq!(windows_input::windows_key_label(0x41), "A");
    assert_eq!(windows_input::windows_key_label(0x35), "5");
    assert_eq!(windows_input::windows_key_label(0x1B), "Escape");
    assert_eq!(windows_input::windows_key_label(0xBA), "VK 186");
    assert_eq!(windows_input::mouse_label(2), "Mouse Right");
    assert_eq!(windows_input::mouse_label(7), "Mouse Button 7");
    assert_eq!(windows_input::mouse_message_button(windows_input::WM_LBUTTONDOWN, 0), Some(1));
    assert_eq!(windows_input::mouse_message_button(windows_input::WM_XBUTTONDOWN, 2 << 16), Some(5));
    assert_eq!(windows_input::mouse_message_button(windows_input::WM_XBUTTONDOWN, 3 << 16), Some(6));
    assert_eq!(windows_input::mouse_message_button(0x0200, 0), None);
    assert_eq!(windows_input::key_message(windows_input::WM_SYSKEYDOWN), Some(true));
    assert_eq!(windows_input::key_message(windows_input::WM_KEYUP), Some(false));
    assert_eq!(windows_input::key_message(0x0200), None);
    let mut mods = windows_input::PressedModifiers::new();
    assert_eq!(windows_input::windows_key_event(&mut mods, 0xA2, true), None);
    let b = windows_input::windows_key_event(&mut mods, 0x76, true).unwrap();
    assert_eq!(b.code, "windows-key:ctrl+118");
    assert_eq!(b.label, "Ctrl+F7");
    assert_eq!(windows_input::windows_key_event(&mut mods, 0x76, false), None);
    let m = windows_input::windows_mouse_event(&mods, 3);
    assert_eq!(m.code, "windows-mouse:ctrl+3");
    assert_eq!(m.label, "Ctrl+Mouse Middle");
}

#[test]
fn mac_labels() {
    assert_eq!(mac_input::mac_key_label(0x00), "A");
    assert_eq!(mac_input::mac_key_label(0x7A), "F1");
    assert_eq!(mac_input::mac_key_label(0x47), "Key 71");
    assert_eq!(mac_input::mouse_label(0), "Mouse Left");
    assert_eq!(mac_input::mouse_label(9), "Mouse Button 10");
    let b = mac_input::key_binding(0x24, Modifiers { meta: true, ..Default::default() });
    assert_eq!(b.code, "mac-key:meta+36");
    assert_eq!(b.label, "Meta+Enter");
    let m = mac_input::mouse_binding(1, Modifiers::default());
    assert_eq!(m.code, "mac-mouse:1");
    assert_eq!(m.label, "Mouse Right");
}

#[test]
fn platform_labels() {
    assert_eq!(platform::platform_label(platform::Platform::Linux), "Linux · egui");
    assert_eq!(platform::platform_label(platform::Platform::Other), "egui");
}
