//! macOS event-tap key and button events.
//!
//! Key codes are the virtual key codes of the Carbon/CoreGraphics keyboard
//! layout (`kVK_*`), as the `core-graphics` crate's `KeyCode` names them.
use vstd::prelude::*;

use crate::config::{Binding, BindingKind};
use crate::input::{chord, chord_binding, Modifiers};
use crate::text::{decimal, push_decimal};

verus! {

/// The label of a mouse button number (0 is the left button).
pub open spec fn mouse_name(button: u32) -> Seq<char> {
    match button {
        0 => "Mouse Left"@,
        1 => "Mouse Right"@,
        2 => "Mouse Middle"@,
        3 => "Mouse Button 4"@,
        4 => "Mouse Button 5"@,
        _ => "Mouse Button "@ + decimal((button + 1) as nat),
    }
}

/// The label of a mouse button number.
pub fn mouse_label(button: u32) -> (r: String)
    requires
        button < u32::MAX,
    ensures
        r@ == mouse_name(button),
{
    let name: &str = match button {
        0 => "Mouse Left",
        1 => "Mouse Right",
        2 => "Mouse Middle",
        3 => "Mouse Button 4",
        4 => "Mouse Button 5",
        _ => {
            let mut s = String::from_str("Mouse Button ");
            push_decimal(&mut s, (button + 1) as u64);
            return s;
        },
    };
    String::from_str(name)
}

/// The label of a named key code.
pub open spec fn named_key(code: u16) -> Option<Seq<char>> {
    match code {
        0x00 => Some("A"@),
        0x0B => Some("B"@),
        0x08 => Some("C"@),
        0x02 => Some("D"@),
        0x0E => Some("E"@),
        0x03 => Some("F"@),
        0x05 => Some("G"@),
        0x04 => Some("H"@),
        0x22 => Some("I"@),
        0x26 => Some("J"@),
        0x28 => Some("K"@),
        0x25 => Some("L"@),
        0x2E => Some("M"@),
        0x2D => Some("N"@),
        0x1F => Some("O"@),
        0x23 => Some("P"@),
        0x0C => Some("Q"@),
        0x0F => Some("R"@),
        0x01 => Some("S"@),
        0x11 => Some("T"@),
        0x20 => Some("U"@),
        0x09 => Some("V"@),
        0x0D => Some("W"@),
        0x07 => Some("X"@),
        0x10 => Some("Y"@),
        0x06 => Some("Z"@),
        0x1D => Some("0"@),
        0x12 => Some("1"@),
        0x13 => Some("2"@),
        0x14 => Some("3"@),
        0x15 => Some("4"@),
        0x17 => Some("5"@),
        0x16 => Some("6"@),
        0x1A => Some("7"@),
        0x1C => Some("8"@),
        0x19 => Some("9"@),
        0x24 => Some("Enter"@),
        0x30 => Some("Tab"@),
        0x31 => Some("Space"@),
        0x33 => Some("Backspace"@),
        0x35 => Some("Escape"@),
        0x37 => Some("Left Meta"@),
        0x36 => Some("Right Meta"@),
        0x38 => Some("Left Shift"@),
        0x3C => Some("Right Shift"@),
        0x3A => Some("Left Alt"@),
        0x3D => Some("Right Alt"@),
        0x3B => Some("Left Ctrl"@),
        0x3E => Some("Right Ctrl"@),
        0x39 => Some("Caps Lock"@),
        0x73 => Some("Home"@),
        0x77 => Some("End"@),
        0x74 => Some("Page Up"@),
        0x79 => Some("Page Down"@),
        0x7B => Some("Left Arrow"@),
        0x7C => Some("Right Arrow"@),
        0x7E => Some("Up Arrow"@),
        0x7D => Some("Down Arrow"@),
        0x7A => Some("F1"@),
        0x78 => Some("F2"@),
        0x63 => Some("F3"@),
        0x76 => Some("F4"@),
        0x60 => Some("F5"@),
        0x61 => Some("F6"@),
        0x62 => Some("F7"@),
        0x64 => Some("F8"@),
        0x65 => Some("F9"@),
        0x6D => Some("F10"@),
        0x67 => Some("F11"@),
        0x6F => Some("F12"@),
        _ => None,
    }
}

/// The label of a key code: its name, or `Key n`.
pub open spec fn key_name(code: u16) -> Seq<char> {
    match named_key(code) {
        Some(name) => name,
        None => "Key "@ + decimal(code as nat),
    }
}

fn named_key_label(code: u16) -> (r: Option<&'static str>)
    ensures
        match r {
            Some(s) => named_key(code) == Some(s@),
            None => named_key(code) is None,
        },
{
    match code {
        0x00 => Some("A"),  // ANSI_A
        0x0B => Some("B"),  // ANSI_B
        0x08 => Some("C"),  // ANSI_C
        0x02 => Some("D"),  // ANSI_D
        0x0E => Some("E"),  // ANSI_E
        0x03 => Some("F"),  // ANSI_F
        0x05 => Some("G"),  // ANSI_G
        0x04 => Some("H"),  // ANSI_H
        0x22 => Some("I"),  // ANSI_I
        0x26 => Some("J"),  // ANSI_J
        0x28 => Some("K"),  // ANSI_K
        0x25 => Some("L"),  // ANSI_L
        0x2E => Some("M"),  // ANSI_M
        0x2D => Some("N"),  // ANSI_N
        0x1F => Some("O"),  // ANSI_O
        0x23 => Some("P"),  // ANSI_P
        0x0C => Some("Q"),  // ANSI_Q
        0x0F => Some("R"),  // ANSI_R
        0x01 => Some("S"),  // ANSI_S
        0x11 => Some("T"),  // ANSI_T
        0x20 => Some("U"),  // ANSI_U
        0x09 => Some("V"),  // ANSI_V
        0x0D => Some("W"),  // ANSI_W
        0x07 => Some("X"),  // ANSI_X
        0x10 => Some("Y"),  // ANSI_Y
        0x06 => Some("Z"),  // ANSI_Z
        0x1D => Some("0"),  // ANSI_0
        0x12 => Some("1"),  // ANSI_1
        0x13 => Some("2"),  // ANSI_2
        0x14 => Some("3"),  // ANSI_3
        0x15 => Some("4"),  // ANSI_4
        0x17 => Some("5"),  // ANSI_5
        0x16 => Some("6"),  // ANSI_6
        0x1A => Some("7"),  // ANSI_7
        0x1C => Some("8"),  // ANSI_8
        0x19 => Some("9"),  // ANSI_9
        0x24 => Some("Enter"),  // RETURN
        0x30 => Some("Tab"),  // TAB
        0x31 => Some("Space"),  // SPACE
        0x33 => Some("Backspace"),  // DELETE
        0x35 => Some("Escape"),  // ESCAPE
        0x37 => Some("Left Meta"),  // COMMAND
        0x36 => Some("Right Meta"),  // RIGHT_COMMAND
        0x38 => Some("Left Shift"),  // SHIFT
        0x3C => Some("Right Shift"),  // RIGHT_SHIFT
        0x3A => Some("Left Alt"),  // OPTION
        0x3D => Some("Right Alt"),  // RIGHT_OPTION
        0x3B => Some("Left Ctrl"),  // CONTROL
        0x3E => Some("Right Ctrl"),  // RIGHT_CONTROL
        0x39 => Some("Caps Lock"),  // CAPS_LOCK
        0x73 => Some("Home"),  // HOME
        0x77 => Some("End"),  // END
        0x74 => Some("Page Up"),  // PAGE_UP
        0x79 => Some("Page Down"),  // PAGE_DOWN
        0x7B => Some("Left Arrow"),  // LEFT_ARROW
        0x7C => Some("Right Arrow"),  // RIGHT_ARROW
        0x7E => Some("Up Arrow"),  // UP_ARROW
        0x7D => Some("Down Arrow"),  // DOWN_ARROW
        0x7A => Some("F1"),  // F1
        0x78 => Some("F2"),  // F2
        0x63 => Some("F3"),  // F3
        0x76 => Some("F4"),  // F4
        0x60 => Some("F5"),  // F5
        0x61 => Some("F6"),  // F6
        0x62 => Some("F7"),  // F7
        0x64 => Some("F8"),  // F8
        0x65 => Some("F9"),  // F9
        0x6D => Some("F10"),  // F10
        0x67 => Some("F11"),  // F11
        0x6F => Some("F12"),  // F12
        _ => None,
    }
}

/// The label of a key code.
pub fn mac_key_label(code: u16) -> (r: String)
    ensures
        r@ == key_name(code),
{
    match named_key_label(code) {
        Some(name) => String::from_str(name),
        None => {
            let mut s = String::from_str("Key ");
            push_decimal(&mut s, code as u64);
            s
        },
    }
}

/// The binding for a pressed key.
pub fn key_binding(code: u16, modifiers: Modifiers) -> (r: Binding)
    ensures
        r@ == chord(BindingKind::Key, "mac-key"@, code as nat, key_name(code), modifiers),
{
    chord_binding(BindingKind::Key, "mac-key", code as u32, mac_key_label(code), modifiers)
}

/// The binding for a pressed mouse button.
pub fn mouse_binding(button: u32, modifiers: Modifiers) -> (r: Binding)
    requires
        button < u32::MAX,
    ensures
        r@ == chord(BindingKind::MouseButton, "mac-mouse"@, button as nat, mouse_name(button), modifiers),
{
    chord_binding(BindingKind::MouseButton, "mac-mouse", button, mouse_label(button), modifiers)
}

} // verus!
