//! Linux key and button events read from `/dev/input/event*` devices.
//!
//! Codes are those of the kernel's `input-event-codes.h`.
use vstd::prelude::*;

use crate::config::{Binding, BindingKind};
use crate::input::{chord, chord_binding, Modifiers};
use crate::text::{
    chars_of, contains, contains_chars, decimal, has_prefix, lines, lowercase, push_decimal, slice_chars,
    split_chars, split_lines, split_on, split_whitespace, starts_with, string_of, to_lowercase, trim, trim_chars,
    words, chars_equal,
};

verus! {

/// Event type of key and button events.
pub const EV_KEY: u16 = 0x01;

/// Event value of a release.
pub const KEY_RELEASE: i32 = 0;

/// Event value of a press.
pub const KEY_PRESS: i32 = 1;

/// The bit a modifier key occupies in [`PressedModifiers`]: left/right Ctrl,
/// left/right Alt, left/right Shift, left/right Meta.
pub open spec fn modifier_bit(code: u16) -> Option<u8> {
    match code {
        29 => Some(1u8),
        97 => Some(2u8),
        56 => Some(4u8),
        100 => Some(8u8),
        42 => Some(16u8),
        54 => Some(32u8),
        125 => Some(64u8),
        126 => Some(128u8),
        _ => None,
    }
}

/// The modifiers a set of held modifier keys amounts to.
pub open spec fn modifiers_of(bits: u8) -> Modifiers {
    Modifiers { ctrl: bits & 3 != 0, alt: bits & 12 != 0, shift: bits & 48 != 0, meta: bits & 192 != 0 }
}

/// Each modifier key turns on its own modifier and leaves the others as they
/// were: Left and Right Ctrl (29, 97) set ctrl, Left and Right Alt (56, 100)
/// set alt, Left and Right Shift (42, 54) set shift, Left and Right Meta
/// (125, 126) set meta, whatever else is held. These are the Linux input
/// key codes whose names `key_name` gives.
pub proof fn lemma_modifier_keys(bits: u8)
    ensures
        key_name(29) == Some("Left Ctrl"@) && key_name(97) == Some("Right Ctrl"@),
        key_name(56) == Some("Left Alt"@) && key_name(100) == Some("Right Alt"@),
        key_name(42) == Some("Left Shift"@) && key_name(54) == Some("Right Shift"@),
        key_name(125) == Some("Left Meta"@) && key_name(126) == Some("Right Meta"@),
        forall|code: u16| #[trigger] modifier_bit(code) matches Some(bit) ==> {
            let before = modifiers_of(bits);
            let after = modifiers_of(bits | bit);
            &&& after.ctrl == (before.ctrl || code == 29 || code == 97)
            &&& after.alt == (before.alt || code == 56 || code == 100)
            &&& after.shift == (before.shift || code == 42 || code == 54)
            &&& after.meta == (before.meta || code == 125 || code == 126)
        },
{
    assert(((bits | 1u8) & 3u8 != 0) && (((bits | 1u8) & 12u8 != 0) == (bits & 12u8 != 0))
        && (((bits | 1u8) & 48u8 != 0) == (bits & 48u8 != 0)) && (((bits | 1u8) & 192u8 != 0) == (bits & 192u8 != 0))) by (bit_vector);
    assert(((bits | 2u8) & 3u8 != 0) && (((bits | 2u8) & 12u8 != 0) == (bits & 12u8 != 0))
        && (((bits | 2u8) & 48u8 != 0) == (bits & 48u8 != 0)) && (((bits | 2u8) & 192u8 != 0) == (bits & 192u8 != 0))) by (bit_vector);
    assert(((bits | 4u8) & 12u8 != 0) && (((bits | 4u8) & 3u8 != 0) == (bits & 3u8 != 0))
        && (((bits | 4u8) & 48u8 != 0) == (bits & 48u8 != 0)) && (((bits | 4u8) & 192u8 != 0) == (bits & 192u8 != 0))) by (bit_vector);
    assert(((bits | 8u8) & 12u8 != 0) && (((bits | 8u8) & 3u8 != 0) == (bits & 3u8 != 0))
        && (((bits | 8u8) & 48u8 != 0) == (bits & 48u8 != 0)) && (((bits | 8u8) & 192u8 != 0) == (bits & 192u8 != 0))) by (bit_vector);
    assert(((bits | 16u8) & 48u8 != 0) && (((bits | 16u8) & 3u8 != 0) == (bits & 3u8 != 0))
        && (((bits | 16u8) & 12u8 != 0) == (bits & 12u8 != 0)) && (((bits | 16u8) & 192u8 != 0) == (bits & 192u8 != 0))) by (bit_vector);
    assert(((bits | 32u8) & 48u8 != 0) && (((bits | 32u8) & 3u8 != 0) == (bits & 3u8 != 0))
        && (((bits | 32u8) & 12u8 != 0) == (bits & 12u8 != 0)) && (((bits | 32u8) & 192u8 != 0) == (bits & 192u8 != 0))) by (bit_vector);
    assert(((bits | 64u8) & 192u8 != 0) && (((bits | 64u8) & 3u8 != 0) == (bits & 3u8 != 0))
        && (((bits | 64u8) & 12u8 != 0) == (bits & 12u8 != 0)) && (((bits | 64u8) & 48u8 != 0) == (bits & 48u8 != 0))) by (bit_vector);
    assert(((bits | 128u8) & 192u8 != 0) && (((bits | 128u8) & 3u8 != 0) == (bits & 3u8 != 0))
        && (((bits | 128u8) & 12u8 != 0) == (bits & 12u8 != 0)) && (((bits | 128u8) & 48u8 != 0) == (bits & 48u8 != 0))) by (bit_vector);
}

/// The modifier keys held on one input device.
#[derive(Clone, Copy, Debug, Default)]
pub struct PressedModifiers {
    bits: u8,
}

impl View for PressedModifiers {
    type V = u8;

    closed spec fn view(&self) -> u8 {
        self.bits
    }
}

impl PressedModifiers {
    /// No modifier held.
    pub fn new() -> (r: PressedModifiers)
        ensures
            r@ == 0,
    {
        PressedModifiers { bits: 0 }
    }

    /// Record a press or release of `code`. Returns whether `code` is a
    /// modifier key; other keys leave the state alone.
    pub fn update(&mut self, code: u16, pressed: bool) -> (r: bool)
        ensures
            r == (modifier_bit(code) is Some),
            final(self)@ == match modifier_bit(code) {
                Some(bit) => if pressed { old(self)@ | bit } else { old(self)@ & !bit },
                None => old(self)@,
            },
    {
        let bit: u8 = match code {
            29 => 1,
            97 => 2,
            56 => 4,
            100 => 8,
            42 => 16,
            54 => 32,
            125 => 64,
            126 => 128,
            _ => return false,
        };
        if pressed {
            self.bits = self.bits | bit;
        } else {
            self.bits = self.bits & !bit;
        }
        true
    }

    /// The modifiers currently held.
    pub fn current(&self) -> (r: Modifiers)
        ensures
            r == modifiers_of(self@),
    {
        Modifiers {
            ctrl: self.bits & 3 != 0,
            alt: self.bits & 12 != 0,
            shift: self.bits & 48 != 0,
            meta: self.bits & 192 != 0,
        }
    }
}

/// Pressing either key of a modifier pair turns its modifier on, whatever
/// else is held; it stays on until both keys of the pair are released.
pub proof fn lemma_modifier_pairs(bits: u8)
    ensures
        modifiers_of(bits | 1u8).ctrl && modifiers_of(bits | 2u8).ctrl,
        modifiers_of(bits | 4u8).alt && modifiers_of(bits | 8u8).alt,
        modifiers_of(bits | 16u8).shift && modifiers_of(bits | 32u8).shift,
        modifiers_of(bits | 64u8).meta && modifiers_of(bits | 128u8).meta,
        !modifiers_of((bits & !1u8) & !2u8).ctrl,
        !modifiers_of((bits & !4u8) & !8u8).alt,
        !modifiers_of((bits & !16u8) & !32u8).shift,
        !modifiers_of((bits & !64u8) & !128u8).meta,
        modifiers_of(bits & !1u8).ctrl == ((bits & 2u8) != 0),
{
    assert((bits | 1u8) & 3u8 != 0 && (bits | 2u8) & 3u8 != 0) by (bit_vector);
    assert((bits | 4u8) & 12u8 != 0 && (bits | 8u8) & 12u8 != 0) by (bit_vector);
    assert((bits | 16u8) & 48u8 != 0 && (bits | 32u8) & 48u8 != 0) by (bit_vector);
    assert((bits | 64u8) & 192u8 != 0 && (bits | 128u8) & 192u8 != 0) by (bit_vector);
    assert(((bits & !1u8) & !2u8) & 3u8 == 0) by (bit_vector);
    assert(((bits & !4u8) & !8u8) & 12u8 == 0) by (bit_vector);
    assert(((bits & !16u8) & !32u8) & 48u8 == 0) by (bit_vector);
    assert(((bits & !64u8) & !128u8) & 192u8 == 0) by (bit_vector);
    assert(((bits & !1u8) & 3u8 != 0) == ((bits & 2u8) != 0)) by (bit_vector);
}

/// The name of a mouse button code.
pub open spec fn mouse_button_name(code: u16) -> Option<Seq<char>> {
    match code {
        272 => Some("Mouse Left"@),
        273 => Some("Mouse Right"@),
        274 => Some("Mouse Middle"@),
        275 => Some("Mouse Side"@),
        276 => Some("Mouse Extra"@),
        277 => Some("Mouse Forward"@),
        278 => Some("Mouse Back"@),
        279 => Some("Mouse Task"@),
        _ => if 280 <= code <= 287 {
            Some("Mouse Button "@ + decimal((code - 271) as nat))
        } else {
            None
        },
    }
}

pub open spec fn string_view(s: Option<String>) -> Option<Seq<char>> {
    match s {
        Some(s) => Some(s@),
        None => None,
    }
}

/// The label of a mouse button code, or `None` when it is not a button.
pub fn mouse_button_label(code: u16) -> (r: Option<String>)
    ensures
        string_view(r) == mouse_button_name(code),
{
    let name: &str = match code {
        272 => "Mouse Left",
        273 => "Mouse Right",
        274 => "Mouse Middle",
        275 => "Mouse Side",
        276 => "Mouse Extra",
        277 => "Mouse Forward",
        278 => "Mouse Back",
        279 => "Mouse Task",
        _ => {
            if 280 <= code && code <= 287 {
                let mut s = String::from_str("Mouse Button ");
                push_decimal(&mut s, (code - 271) as u64);
                return Some(s);
            }
            return None;
        },
    };
    Some(String::from_str(name))
}

/// The name of a keyboard key code.
pub open spec fn key_name(code: u16) -> Option<Seq<char>> {
    match code {
        1 => Some("Escape"@),
        2 => Some("1"@),
        3 => Some("2"@),
        4 => Some("3"@),
        5 => Some("4"@),
        6 => Some("5"@),
        7 => Some("6"@),
        8 => Some("7"@),
        9 => Some("8"@),
        10 => Some("9"@),
        11 => Some("0"@),
        12 => Some("-"@),
        13 => Some("="@),
        14 => Some("Backspace"@),
        15 => Some("Tab"@),
        16 => Some("Q"@),
        17 => Some("W"@),
        18 => Some("E"@),
        19 => Some("R"@),
        20 => Some("T"@),
        21 => Some("Y"@),
        22 => Some("U"@),
        23 => Some("I"@),
        24 => Some("O"@),
        25 => Some("P"@),
        26 => Some("["@),
        27 => Some("]"@),
        28 => Some("Enter"@),
        29 => Some("Left Ctrl"@),
        30 => Some("A"@),
        31 => Some("S"@),
        32 => Some("D"@),
        33 => Some("F"@),
        34 => Some("G"@),
        35 => Some("H"@),
        36 => Some("J"@),
        37 => Some("K"@),
        38 => Some("L"@),
        39 => Some(";"@),
        40 => Some("'"@),
        41 => Some("`"@),
        42 => Some("Left Shift"@),
        43 => Some("\\"@),
        44 => Some("Z"@),
        45 => Some("X"@),
        46 => Some("C"@),
        47 => Some("V"@),
        48 => Some("B"@),
        49 => Some("N"@),
        50 => Some("M"@),
        51 => Some(","@),
        52 => Some("."@),
        53 => Some("/"@),
        54 => Some("Right Shift"@),
        56 => Some("Left Alt"@),
        57 => Some("Space"@),
        58 => Some("Caps Lock"@),
        59 => Some("F1"@),
        60 => Some("F2"@),
        61 => Some("F3"@),
        62 => Some("F4"@),
        63 => Some("F5"@),
        64 => Some("F6"@),
        65 => Some("F7"@),
        66 => Some("F8"@),
        67 => Some("F9"@),
        68 => Some("F10"@),
        87 => Some("F11"@),
        88 => Some("F12"@),
        97 => Some("Right Ctrl"@),
        100 => Some("Right Alt"@),
        102 => Some("Home"@),
        103 => Some("Up Arrow"@),
        104 => Some("Page Up"@),
        105 => Some("Left Arrow"@),
        106 => Some("Right Arrow"@),
        107 => Some("End"@),
        108 => Some("Down Arrow"@),
        109 => Some("Page Down"@),
        110 => Some("Insert"@),
        111 => Some("Delete"@),
        125 => Some("Left Meta"@),
        126 => Some("Right Meta"@),
        _ => None,
    }
}

/// The label of a keyboard key code, or `None` for keys without a name.
pub fn key_label(code: u16) -> (r: Option<String>)
    ensures
        string_view(r) == key_name(code),
{
    let label: &str = match code {
        1 => "Escape",
        2 => "1",
        3 => "2",
        4 => "3",
        5 => "4",
        6 => "5",
        7 => "6",
        8 => "7",
        9 => "8",
        10 => "9",
        11 => "0",
        12 => "-",
        13 => "=",
        14 => "Backspace",
        15 => "Tab",
        16 => "Q",
        17 => "W",
        18 => "E",
        19 => "R",
        20 => "T",
        21 => "Y",
        22 => "U",
        23 => "I",
        24 => "O",
        25 => "P",
        26 => "[",
        27 => "]",
        28 => "Enter",
        29 => "Left Ctrl",
        30 => "A",
        31 => "S",
        32 => "D",
        33 => "F",
        34 => "G",
        35 => "H",
        36 => "J",
        37 => "K",
        38 => "L",
        39 => ";",
        40 => "'",
        41 => "`",
        42 => "Left Shift",
        43 => "\\",
        44 => "Z",
        45 => "X",
        46 => "C",
        47 => "V",
        48 => "B",
        49 => "N",
        50 => "M",
        51 => ",",
        52 => ".",
        53 => "/",
        54 => "Right Shift",
        56 => "Left Alt",
        57 => "Space",
        58 => "Caps Lock",
        59 => "F1",
        60 => "F2",
        61 => "F3",
        62 => "F4",
        63 => "F5",
        64 => "F6",
        65 => "F7",
        66 => "F8",
        67 => "F9",
        68 => "F10",
        87 => "F11",
        88 => "F12",
        97 => "Right Ctrl",
        100 => "Right Alt",
        102 => "Home",
        103 => "Up Arrow",
        104 => "Page Up",
        105 => "Left Arrow",
        106 => "Right Arrow",
        107 => "End",
        108 => "Down Arrow",
        109 => "Page Down",
        110 => "Insert",
        111 => "Delete",
        125 => "Left Meta",
        126 => "Right Meta",
        _ => return None,
    };
    Some(String::from_str(label))
}

/// The binding a pressed key or button amounts to: buttons are
/// `linux-mouse:` bindings, named keys `linux-key:` bindings; other keys are ignored.
pub open spec fn spec_linux_binding(code: u16, m: Modifiers) -> Option<crate::config::BindingView> {
    match mouse_button_name(code) {
        Some(label) => Some(chord(BindingKind::MouseButton, "linux-mouse"@, code as nat, label, m)),
        None => match key_name(code) {
            Some(label) => Some(chord(BindingKind::Key, "linux-key"@, code as nat, label, m)),
            None => None,
        },
    }
}

pub open spec fn binding_option_view(b: Option<Binding>) -> Option<crate::config::BindingView> {
    crate::config::binding_view(b)
}

/// The binding for a pressed key or button, or `None` for keys without a name.
pub fn linux_binding(code: u16, modifiers: Modifiers) -> (r: Option<Binding>)
    ensures
        binding_option_view(r) == spec_linux_binding(code, modifiers),
{
    if let Some(label) = mouse_button_label(code) {
        return Some(chord_binding(BindingKind::MouseButton, "linux-mouse", code as u32, label, modifiers));
    }
    match key_label(code) {
        Some(label) => Some(chord_binding(BindingKind::Key, "linux-key", code as u32, label, modifiers)),
        None => None,
    }
}

/// One event read from a device: modifier keys update the held modifiers and
/// are never bindings themselves; a press of any other named key or button
/// is a binding, chorded with the modifiers held.
pub fn linux_key_event(mods: &mut PressedModifiers, event_type: u16, code: u16, value: i32) -> (r: Option<Binding>)
    ensures
        event_type != EV_KEY ==> r is None && final(mods)@ == old(mods)@,
        event_type == EV_KEY ==> {
            &&& final(mods)@ == match modifier_bit(code) {
                Some(bit) => if value != KEY_RELEASE { old(mods)@ | bit } else { old(mods)@ & !bit },
                None => old(mods)@,
            }
            &&& binding_option_view(r) == if modifier_bit(code) is None && value == KEY_PRESS {
                spec_linux_binding(code, modifiers_of(old(mods)@))
            } else {
                None
            }
        },
{
    if event_type != EV_KEY {
        return None;
    }
    if mods.update(code, value != KEY_RELEASE) {
        return None;
    }
    if value == KEY_PRESS {
        linux_binding(code, mods.current())
    } else {
        None
    }
}

/// The value after `prefix` on the first line of `block` that starts with
/// it, trimmed.
pub open spec fn first_prefixed(ls: Seq<Seq<char>>, prefix: Seq<char>) -> Option<Seq<char>>
    decreases ls.len(),
{
    if ls.len() == 0 {
        None
    } else if starts_with(ls[0], prefix) {
        Some(trim(ls[0].skip(prefix.len() as int)))
    } else {
        first_prefixed(ls.drop_first(), prefix)
    }
}

pub open spec fn spec_extract_line_value(block: Seq<char>, prefix: Seq<char>) -> Option<Seq<char>> {
    first_prefixed(lines(block), prefix)
}

fn line_value_chars(block: &[char], prefix: &[char]) -> (r: Option<Vec<char>>)
    ensures
        match r {
            Some(v) => spec_extract_line_value(block@, prefix@) == Some(v@),
            None => spec_extract_line_value(block@, prefix@) is None,
        },
{
    let ls = split_lines(block);
    let ghost all = ls.deep_view();
    let mut i: usize = 0;
    proof {
        assert(all.skip(0) =~= all);
    }
    while i < ls.len()
        invariant
            i <= ls@.len(),
            all == ls.deep_view(),
            all.len() == ls@.len(),
            all == lines(block@),
            first_prefixed(all, prefix@) == first_prefixed(all.skip(i as int), prefix@),
        decreases ls@.len() - i,
    {
        proof {
            assert(all.skip(i as int)[0] == ls@[i as int]@);
            assert(all.skip(i as int).drop_first() =~= all.skip(i + 1));
        }
        let line = &ls[i];
        if has_prefix(line.as_slice(), prefix) {
            let rest = slice_chars(line.as_slice(), prefix.len(), line.len());
            proof {
                assert(rest@ =~= line@.skip(prefix@.len() as int));
                let sk = all.skip(i as int);
                assert(sk[0] =~= line@);
                assert(starts_with(sk[0], prefix@));
                assert(first_prefixed(sk, prefix@) == Some(trim(sk[0].skip(prefix@.len() as int))));
            }
            return Some(trim_chars(rest.as_slice()));
        }
        i = i + 1;
    }
    None
}

/// The trimmed value after `prefix` on the first line of `block` that starts with it.
pub fn extract_line_value(block: &str, prefix: &str) -> (r: Option<String>)
    ensures
        string_view(r) == spec_extract_line_value(block@, prefix@),
{
    let b = chars_of(block);
    let p = chars_of(prefix);
    match line_value_chars(b.as_slice(), p.as_slice()) {
        Some(v) => Some(string_of(v.as_slice())),
        None => None,
    }
}

/// A value in double quotes, without them.
pub open spec fn unquoted(v: Seq<char>) -> Option<Seq<char>> {
    if v.len() >= 1 && v[0] == '"' && v.skip(1).len() >= 1 && v.skip(1).last() == '"' {
        Some(v.skip(1).drop_last())
    } else {
        None
    }
}

pub open spec fn spec_extract_quoted_field(block: Seq<char>, prefix: Seq<char>) -> Option<Seq<char>> {
    match spec_extract_line_value(block, prefix) {
        Some(v) => unquoted(v),
        None => None,
    }
}

fn unquote_chars(v: &Vec<char>) -> (r: Option<Vec<char>>)
    ensures
        match r {
            Some(u) => unquoted(v@) == Some(u@),
            None => unquoted(v@) is None,
        },
{
    let n = v.len();
    if n >= 1 && v[0] == '"' && n - 1 >= 1 && v[n - 1] == '"' {
        let u = slice_chars(v.as_slice(), 1, n - 1);
        proof {
            assert(u@ =~= v@.skip(1).drop_last());
        }
        Some(u)
    } else {
        proof {
            if n >= 2 {
                assert(v@.skip(1).last() == v@[n - 1]);
            }
        }
        None
    }
}

/// The value after `prefix` on the first line that starts with it, when it is in double quotes.
pub fn extract_quoted_field(block: &str, prefix: &str) -> (r: Option<String>)
    ensures
        string_view(r) == spec_extract_quoted_field(block@, prefix@),
{
    let b = chars_of(block);
    let p = chars_of(prefix);
    match line_value_chars(b.as_slice(), p.as_slice()) {
        Some(v) => match unquote_chars(&v) {
            Some(u) => Some(string_of(u.as_slice())),
            None => None,
        },
        None => None,
    }
}

/// An input device that may carry key or button events.
#[derive(Clone, Debug, PartialEq, Eq)]
pub struct InputDevice {
    /// `/dev/input/eventN`.
    pub path: String,
    pub name: String,
}

pub struct DeviceView {
    pub path: Seq<char>,
    pub name: Seq<char>,
}

impl View for InputDevice {
    type V = DeviceView;

    open spec fn view(&self) -> DeviceView {
        DeviceView { path: self.path@, name: self.name@ }
    }
}

/// The first handler that is an event device.
pub open spec fn first_event(ts: Seq<Seq<char>>) -> Option<Seq<char>>
    decreases ts.len(),
{
    if ts.len() == 0 {
        None
    } else if starts_with(ts[0], "event"@) {
        Some(ts[0])
    } else {
        first_event(ts.drop_first())
    }
}

/// The event device of a handler list is its first handler word that starts
/// with `event`, wherever that word stands in the list; a list without such a
/// word names no event device.
pub proof fn lemma_first_event_is_first_match(ts: Seq<Seq<char>>)
    ensures
        (forall|j: int| 0 <= j < ts.len() ==> !starts_with(#[trigger] ts[j], "event"@)) ==> first_event(ts) is None,
        forall|i: int|
            0 <= i < ts.len() && starts_with(#[trigger] ts[i], "event"@)
                && (forall|j: int| 0 <= j < i ==> !starts_with(#[trigger] ts[j], "event"@))
                ==> first_event(ts) == Some(ts[i]),
    decreases ts.len(),
{
    if ts.len() > 0 {
        let rest = ts.drop_first();
        lemma_first_event_is_first_match(rest);
        if forall|j: int| 0 <= j < ts.len() ==> !starts_with(#[trigger] ts[j], "event"@) {
            assert(!starts_with(ts[0], "event"@));
            assert forall|j: int| 0 <= j < rest.len() implies !starts_with(#[trigger] rest[j], "event"@) by {
                assert(rest[j] == ts[j + 1]);
            }
        }
        assert forall|i: int|
            0 <= i < ts.len() && starts_with(#[trigger] ts[i], "event"@)
                && (forall|j: int| 0 <= j < i ==> !starts_with(#[trigger] ts[j], "event"@))
                implies first_event(ts) == Some(ts[i]) by {
            if i > 0 {
                assert(!starts_with(ts[0], "event"@));
                assert(rest[i - 1] == ts[i]);
                assert forall|j: int| 0 <= j < i - 1 implies !starts_with(#[trigger] rest[j], "event"@) by {
                    assert(rest[j] == ts[j + 1]);
                }
            }
        }
    }
}

/// Some handler is a keyboard or a mouse.
pub open spec fn has_input_role(ts: Seq<Seq<char>>) -> bool {
    exists|i: int| 0 <= i < ts.len() && (ts[i] == "kbd"@ || starts_with(ts[i], "mouse"@))
}

/// The device's event-type bitmap mentions key events.
pub open spec fn has_key_events(block: Seq<char>) -> bool {
    match spec_extract_line_value(block, "B: EV="@) {
        Some(v) => contains(v, "3"@) || contains(v, "17"@) || contains(v, "1f"@),
        None => false,
    }
}

/// The device a block of `/proc/bus/input/devices` describes, if it is a
/// named keyboard, mouse or key-event device with an event handler, and not
/// the ydotool virtual device.
pub open spec fn device_of_block(block: Seq<char>) -> Option<DeviceView> {
    match spec_extract_quoted_field(block, "N: Name="@) {
        None => None,
        Some(name) => if contains(lowercase(name), "ydotoold virtual device"@) {
            None
        } else {
            match spec_extract_line_value(block, "H: Handlers="@) {
                None => None,
                Some(h) => match first_event(words(h)) {
                    None => None,
                    Some(ev) => if !has_input_role(words(h)) && !has_key_events(block) {
                        None
                    } else {
                        Some(DeviceView { path: "/dev/input/"@ + ev, name })
                    },
                },
            }
        },
    }
}

/// The devices described by the blocks, in order.
pub open spec fn devices_of_blocks(blocks: Seq<Seq<char>>) -> Seq<DeviceView>
    decreases blocks.len(),
{
    if blocks.len() == 0 {
        Seq::empty()
    } else {
        let r = devices_of_blocks(blocks.drop_last());
        match device_of_block(blocks.last()) {
            Some(d) => r.push(d),
            None => r,
        }
    }
}

/// The candidate devices of a `/proc/bus/input/devices` listing, whose
/// blocks are separated by blank lines.
pub open spec fn spec_input_device_candidates(contents: Seq<char>) -> Seq<DeviceView> {
    devices_of_blocks(split_on(contents, "\n\n"@))
}

/// The views of a list of devices.
pub open spec fn devices_view(v: Seq<InputDevice>) -> Seq<DeviceView> {
    v.map_values(|d: InputDevice| d@)
}

fn find_event(ts: &Vec<Vec<char>>) -> (r: Option<usize>)
    ensures
        match r {
            Some(i) => i < ts@.len() && first_event(ts.deep_view()) == Some(ts@[i as int]@),
            None => first_event(ts.deep_view()) is None,
        },
{
    let ghost all = ts.deep_view();
    let event = chars_of("event");
    let mut i: usize = 0;
    proof {
        assert(all.skip(0) =~= all);
    }
    while i < ts.len()
        invariant
            i <= ts@.len(),
            all == ts.deep_view(),
            all.len() == ts@.len(),
            event@ == "event"@,
            first_event(all) == first_event(all.skip(i as int)),
        decreases ts@.len() - i,
    {
        proof {
            assert(all.skip(i as int)[0] == ts@[i as int]@);
            assert(all.skip(i as int).drop_first() =~= all.skip(i + 1));
        }
        if has_prefix(ts[i].as_slice(), event.as_slice()) {
            return Some(i);
        }
        i = i + 1;
    }
    None
}

fn any_input_role(ts: &Vec<Vec<char>>) -> (r: bool)
    ensures
        r == has_input_role(ts.deep_view()),
{
    let ghost all = ts.deep_view();
    let kbd = chars_of("kbd");
    let mouse = chars_of("mouse");
    let mut i: usize = 0;
    while i < ts.len()
        invariant
            i <= ts@.len(),
            all == ts.deep_view(),
            all.len() == ts@.len(),
            kbd@ == "kbd"@,
            mouse@ == "mouse"@,
            forall|k: int| 0 <= k < i ==> !(all[k] == "kbd"@ || starts_with(all[k], "mouse"@)),
        decreases ts@.len() - i,
    {
        proof {
            assert(all[i as int] == ts@[i as int]@);
        }
        if chars_equal(ts[i].as_slice(), kbd.as_slice()) || has_prefix(ts[i].as_slice(), mouse.as_slice()) {
            return true;
        }
        i = i + 1;
    }
    false
}

fn key_events_listed(block: &[char]) -> (r: bool)
    ensures
        r == has_key_events(block@),
{
    let prefix = chars_of("B: EV=");
    match line_value_chars(block, prefix.as_slice()) {
        None => false,
        Some(v) => {
            let three = chars_of("3");
            let seventeen = chars_of("17");
            let one_f = chars_of("1f");
            contains_chars(v.as_slice(), three.as_slice()) || contains_chars(v.as_slice(), seventeen.as_slice())
                || contains_chars(v.as_slice(), one_f.as_slice())
        },
    }
}

fn device_from_block(block: &[char]) -> (r: Option<InputDevice>)
    ensures
        match r {
            Some(d) => device_of_block(block@) == Some(d@),
            None => device_of_block(block@) is None,
        },
{
    let name_prefix = chars_of("N: Name=");
    let name = match line_value_chars(block, name_prefix.as_slice()) {
        None => return None,
        Some(v) => match unquote_chars(&v) {
            None => return None,
            Some(u) => u,
        },
    };
    let lower = to_lowercase(name.as_slice());
    let virtual_name = chars_of("ydotoold virtual device");
    if contains_chars(lower.as_slice(), virtual_name.as_slice()) {
        return None;
    }
    let handlers_prefix = chars_of("H: Handlers=");
    let handlers = match line_value_chars(block, handlers_prefix.as_slice()) {
        None => return None,
        Some(h) => h,
    };
    let ts = split_whitespace(handlers.as_slice());
    let ev = match find_event(&ts) {
        None => return None,
        Some(i) => i,
    };
    if !any_input_role(&ts) && !key_events_listed(block) {
        return None;
    }
    let mut path = String::from_str("/dev/input/");
    let event_name = string_of(ts[ev].as_slice());
    path.append(event_name.as_str());
    Some(InputDevice { path, name: string_of(name.as_slice()) })
}

/// The candidate input devices listed in `/proc/bus/input/devices`; the
/// caller keeps those whose path is a character device it can open.
pub fn input_device_candidates(contents: &str) -> (r: Vec<InputDevice>)
    ensures
        devices_view(r@) == spec_input_device_candidates(contents@),
{
    let c = chars_of(contents);
    let sep = chars_of("\n\n");
    proof {
        reveal_strlit("\n\n");
    }
    let blocks = split_chars(c.as_slice(), sep.as_slice());
    let ghost all = blocks.deep_view();
    let mut r: Vec<InputDevice> = Vec::new();
    let mut i: usize = 0;
    while i < blocks.len()
        invariant
            i <= blocks@.len(),
            all == blocks.deep_view(),
            all.len() == blocks@.len(),
            devices_view(r@) == devices_of_blocks(all.take(i as int)),
        decreases blocks@.len() - i,
    {
        proof {
            assert(all.take(i + 1).drop_last() =~= all.take(i as int));
            assert(all.take(i + 1).last() == blocks@[i as int]@);
        }
        match device_from_block(blocks[i].as_slice()) {
            Some(d) => {
                let ghost before = devices_view(r@);
                let ghost dv = d@;
                r.push(d);
                proof {
                    assert(devices_view(r@) =~= before.push(dv));
                }
            },
            None => {},
        }
        i = i + 1;
    }
    proof {
        assert(all.take(blocks@.len() as int) =~= all);
    }
    r
}

} // verus!
