//! Windows keyboard and mouse hook events.
//!
//! Key codes are Win32 virtual-key codes; message numbers are those of the
//! Win32 `WM_*` window messages.
use vstd::prelude::*;

use crate::config::{Binding, BindingKind};
use crate::input::{chord, chord_binding, Modifiers};
use crate::linux_input::{binding_option_view, modifiers_of};
use crate::text::{decimal, push_char, push_decimal};

verus! {

/// `WM_KEYDOWN`.
pub const WM_KEYDOWN: u32 = 0x0100;
/// `WM_KEYUP`.
pub const WM_KEYUP: u32 = 0x0101;
/// `WM_SYSKEYDOWN`.
pub const WM_SYSKEYDOWN: u32 = 0x0104;
/// `WM_SYSKEYUP`.
pub const WM_SYSKEYUP: u32 = 0x0105;
/// `WM_LBUTTONDOWN`.
pub const WM_LBUTTONDOWN: u32 = 0x0201;
/// `WM_RBUTTONDOWN`.
pub const WM_RBUTTONDOWN: u32 = 0x0204;
/// `WM_MBUTTONDOWN`.
pub const WM_MBUTTONDOWN: u32 = 0x0207;
/// `WM_XBUTTONDOWN`.
pub const WM_XBUTTONDOWN: u32 = 0x020B;

/// Whether a keyboard hook message is a key event, and if so whether it is a press.
pub open spec fn spec_key_message(message: u32) -> Option<bool> {
    if message == WM_KEYDOWN || message == WM_SYSKEYDOWN {
        Some(true)
    } else if message == WM_KEYUP || message == WM_SYSKEYUP {
        Some(false)
    } else {
        None
    }
}

/// Classify a keyboard hook message: `Some(true)` for a key press,
/// `Some(false)` for a release, `None` for anything else.
pub fn key_message(message: u32) -> (r: Option<bool>)
    ensures
        r == spec_key_message(message),
{
    if message == WM_KEYDOWN || message == WM_SYSKEYDOWN {
        Some(true)
    } else if message == WM_KEYUP || message == WM_SYSKEYUP {
        Some(false)
    } else {
        None
    }
}

/// The button number a mouse hook message presses: 1 left, 2 right,
/// 3 middle, 4 and 5 the first two X buttons, and X button `n` as `n + 3`.
pub open spec fn spec_mouse_message_button(message: u32, mouse_data: u32) -> Option<u32> {
    if message == WM_LBUTTONDOWN {
        Some(1u32)
    } else if message == WM_RBUTTONDOWN {
        Some(2u32)
    } else if message == WM_MBUTTONDOWN {
        Some(3u32)
    } else if message == WM_XBUTTONDOWN {
        let x = (mouse_data >> 16u32) & 0xffffu32;
        if x == 1 {
            Some(4u32)
        } else if x == 2 {
            Some(5u32)
        } else {
            Some((x + 3) as u32)
        }
    } else {
        None
    }
}

/// The button a mouse hook message presses, or `None` for other messages.
pub fn mouse_message_button(message: u32, mouse_data: u32) -> (r: Option<u32>)
    ensures
        r == spec_mouse_message_button(message, mouse_data),
{
    if message == WM_LBUTTONDOWN {
        Some(1)
    } else if message == WM_RBUTTONDOWN {
        Some(2)
    } else if message == WM_MBUTTONDOWN {
        Some(3)
    } else if message == WM_XBUTTONDOWN {
        let x = (mouse_data >> 16u32) & 0xffffu32;
        assert(x <= 0xffff) by (bit_vector)
            requires x == (mouse_data >> 16u32) & 0xffffu32;
        if x == 1 {
            Some(4)
        } else if x == 2 {
            Some(5)
        } else {
            Some(x + 3)
        }
    } else {
        None
    }
}

/// The bit a modifier key occupies: Ctrl (generic and left), right Ctrl,
/// Alt (generic and left), right Alt, Shift (generic and left), right Shift,
/// left Windows, right Windows.
pub open spec fn modifier_bit(vk: u32) -> Option<u8> {
    if vk == 0x11 || vk == 0xA2 {
        Some(1u8)
    } else if vk == 0xA3 {
        Some(2u8)
    } else if vk == 0x12 || vk == 0xA4 {
        Some(4u8)
    } else if vk == 0xA5 {
        Some(8u8)
    } else if vk == 0x10 || vk == 0xA0 {
        Some(16u8)
    } else if vk == 0xA1 {
        Some(32u8)
    } else if vk == 0x5B {
        Some(64u8)
    } else if vk == 0x5C {
        Some(128u8)
    } else {
        None
    }
}

/// The modifier keys held, as seen by the keyboard hook.
#[derive(Clone, Copy, Debug, Default)]
pub struct PressedModifiers {
    bits: u8,
}

impl View for PressedModifiers {
    type V = u8;

    closed spec fn view(&self) -> u8 {
        self.bits
    }
}

impl PressedModifiers {
    /// No modifier held.
    pub fn new() -> (r: PressedModifiers)
        ensures
            r@ == 0,
    {
        PressedModifiers { bits: 0 }
    }

    /// Record a press or release of `vk_code`. Returns whether it is a
    /// modifier key; other keys leave the state alone.
    pub fn update(&mut self, vk_code: u32, pressed: bool) -> (r: bool)
        ensures
            r == (modifier_bit(vk_code) is Some),
            final(self)@ == match modifier_bit(vk_code) {
                Some(bit) => if pressed { old(self)@ | bit } else { old(self)@ & !bit },
                None => old(self)@,
            },
    {
        let bit: u8 = if vk_code == 0x11 || vk_code == 0xA2 {
            1
        } else if vk_code == 0xA3 {
            2
        } else if vk_code == 0x12 || vk_code == 0xA4 {
            4
        } else if vk_code == 0xA5 {
            8
        } else if vk_code == 0x10 || vk_code == 0xA0 {
            16
        } else if vk_code == 0xA1 {
            32
        } else if vk_code == 0x5B {
            64
        } else if vk_code == 0x5C {
            128
        } else {
            return false;
        };
        if pressed {
            self.bits = self.bits | bit;
        } else {
            self.bits = self.bits & !bit;
        }
        true
    }

    /// The modifiers currently held.
    pub fn current(&self) -> (r: Modifiers)
        ensures
            r == modifiers_of(self@),
    {
        Modifiers {
            ctrl: self.bits & 3 != 0,
            alt: self.bits & 12 != 0,
            shift: self.bits & 48 != 0,
            meta: self.bits & 192 != 0,
        }
    }
}

/// The label of a mouse button number.
pub open spec fn mouse_name(button: u32) -> Seq<char> {
    match button {
        1 => "Mouse Left"@,
        2 => "Mouse Right"@,
        3 => "Mouse Middle"@,
        4 => "Mouse Button 4"@,
        5 => "Mouse Button 5"@,
        _ => "Mouse Button "@ + decimal(button as nat),
    }
}

/// The label of a mouse button number.
pub fn mouse_label(button: u32) -> (r: String)
    ensures
        r@ == mouse_name(button),
{
    let name: &str = match button {
        1 => "Mouse Left",
        2 => "Mouse Right",
        3 => "Mouse Middle",
        4 => "Mouse Button 4",
        5 => "Mouse Button 5",
        _ => {
            let mut s = String::from_str("Mouse Button ");
            push_decimal(&mut s, button as u64);
            return s;
        },
    };
    String::from_str(name)
}

/// The label of a virtual-key code without a name of its own.
pub open spec fn named_key(vk: u32) -> Option<Seq<char>> {
    match vk {
        0x08 => Some("Backspace"@),
        0x09 => Some("Tab"@),
        0x0D => Some("Enter"@),
        0x10 => Some("Shift"@),
        0x11 => Some("Ctrl"@),
        0x12 => Some("Alt"@),
        0x14 => Some("Caps Lock"@),
        0x1B => Some("Escape"@),
        0x20 => Some("Space"@),
        0x21 => Some("Page Up"@),
        0x22 => Some("Page Down"@),
        0x23 => Some("End"@),
        0x24 => Some("Home"@),
        0x25 => Some("Left Arrow"@),
        0x26 => Some("Up Arrow"@),
        0x27 => Some("Right Arrow"@),
        0x28 => Some("Down Arrow"@),
        0x2D => Some("Insert"@),
        0x2E => Some("Delete"@),
        0x5B => Some("Left Meta"@),
        0x5C => Some("Right Meta"@),
        _ => None,
    }
}

/// The label of a virtual-key code: named keys, `F1`..`F12`, digits and
/// letters as themselves, and `VK n` for the rest.
pub open spec fn key_name(vk: u32) -> Seq<char> {
    match named_key(vk) {
        Some(name) => name,
        None => if 0x70 <= vk <= 0x7B {
            "F"@ + decimal((vk - 0x6F) as nat)
        } else if (0x30 <= vk <= 0x39) || (0x41 <= vk <= 0x5A) {
            seq![(vk as int) as char]
        } else {
            "VK "@ + decimal(vk as nat)
        },
    }
}

fn named_key_label(vk_code: u32) -> (r: Option<&'static str>)
    ensures
        match r {
            Some(s) => named_key(vk_code) == Some(s@),
            None => named_key(vk_code) is None,
        },
{
    match vk_code {
        0x08 => Some("Backspace"),
        0x09 => Some("Tab"),
        0x0D => Some("Enter"),
        0x10 => Some("Shift"),
        0x11 => Some("Ctrl"),
        0x12 => Some("Alt"),
        0x14 => Some("Caps Lock"),
        0x1B => Some("Escape"),
        0x20 => Some("Space"),
        0x21 => Some("Page Up"),
        0x22 => Some("Page Down"),
        0x23 => Some("End"),
        0x24 => Some("Home"),
        0x25 => Some("Left Arrow"),
        0x26 => Some("Up Arrow"),
        0x27 => Some("Right Arrow"),
        0x28 => Some("Down Arrow"),
        0x2D => Some("Insert"),
        0x2E => Some("Delete"),
        0x5B => Some("Left Meta"),
        0x5C => Some("Right Meta"),
        _ => None,
    }
}

/// The label of a virtual-key code.
pub fn windows_key_label(vk_code: u32) -> (r: String)
    ensures
        r@ == key_name(vk_code),
{
    if let Some(name) = named_key_label(vk_code) {
        return String::from_str(name);
    }
    if 0x70 <= vk_code && vk_code <= 0x7B {
        let mut s = String::from_str("F");
        push_decimal(&mut s, (vk_code - 0x6F) as u64);
        return s;
    }
    if (0x30 <= vk_code && vk_code <= 0x39) || (0x41 <= vk_code && vk_code <= 0x5A) {
        let mut s = String::new();
        let c = (vk_code as u8) as char;
        push_char(&mut s, c);
        proof {
            assert(s@ =~= seq![(vk_code as int) as char]);
        }
        return s;
    }
    let mut s = String::from_str("VK ");
    push_decimal(&mut s, vk_code as u64);
    s
}

/// The binding for a pressed key.
pub fn key_binding(vk_code: u32, modifiers: Modifiers) -> (r: Binding)
    ensures
        r@ == chord(BindingKind::Key, "windows-key"@, vk_code as nat, key_name(vk_code), modifiers),
{
    chord_binding(BindingKind::Key, "windows-key", vk_code, windows_key_label(vk_code), modifiers)
}

/// The binding for a pressed mouse button.
pub fn mouse_binding(button: u32, modifiers: Modifiers) -> (r: Binding)
    ensures
        r@ == chord(BindingKind::MouseButton, "windows-mouse"@, button as nat, mouse_name(button), modifiers),
{
    chord_binding(BindingKind::MouseButton, "windows-mouse", button, mouse_label(button), modifiers)
}

/// A key event from the keyboard hook: modifier keys update the held
/// modifiers and are never bindings themselves; a press of any other key is
/// a binding, chorded with the modifiers held; releases are ignored.
pub fn windows_key_event(mods: &mut PressedModifiers, vk_code: u32, pressed: bool) -> (r: Option<Binding>)
    ensures
        final(mods)@ == match modifier_bit(vk_code) {
            Some(bit) => if pressed { old(mods)@ | bit } else { old(mods)@ & !bit },
            None => old(mods)@,
        },
        binding_option_view(r) == if modifier_bit(vk_code) is None && pressed {
            Some(chord(BindingKind::Key, "windows-key"@, vk_code as nat, key_name(vk_code), modifiers_of(old(mods)@)))
        } else {
            None
        },
{
    if mods.update(vk_code, pressed) || !pressed {
        return None;
    }
    Some(key_binding(vk_code, mods.current()))
}

/// A button press from the mouse hook, chorded with the modifiers held.
pub fn windows_mouse_event(mods: &PressedModifiers, button: u32) -> (r: Binding)
    ensures
        r@ == chord(BindingKind::MouseButton, "windows-mouse"@, button as nat, mouse_name(button), modifiers_of(mods@)),
{
    mouse_binding(button, mods.current())
}

} // verus!
