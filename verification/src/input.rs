//! The Steam-Input virtual-keyboard boundary: which input device is the
//! Steam-emitted virtual keyboard, and how the keys its action layer emits map
//! to semantic intents. The device reading and grabbing happen outside the
//! library, which is handed plain key codes.
//!
//! The keymap here must match the Steam Input action layer that emits the
//! keys — that template is the actual input gate; this is only the
//! daemon-side reading of the keys it emits.

use crate::msg::InputIntent;
use crate::text::{contains, seq_contains, spec_to_lowercase, to_lowercase};
use vstd::prelude::*;

verus! {

/// True when a device name and capability look like the Steam Input virtual
/// keyboard: it must offer keyboard keys, and its lower-cased name mentions
/// "steam" or "virtual".
pub open spec fn spec_is_steam_virtual_keyboard(name: Seq<char>, has_keyboard_keys: bool) -> bool {
    has_keyboard_keys && (seq_contains(spec_to_lowercase(name), "steam"@) || seq_contains(
        spec_to_lowercase(name),
        "virtual"@,
    ))
}

/// Heuristic: does this evdev device look like the Steam Input virtual
/// keyboard? Real hardware keyboards are excluded by the name.
pub fn is_steam_virtual_keyboard(name: &str, has_keyboard_keys: bool) -> (b: bool)
    ensures
        b == spec_is_steam_virtual_keyboard(name@, has_keyboard_keys),
{
    if !has_keyboard_keys {
        return false;
    }
    let n = to_lowercase(name);
    contains(n.as_str(), "steam") || contains(n.as_str(), "virtual")
}

/// Is this device usable as *some* keyboard at all? A real keyboard has
/// letter + Enter + Space + Left-Shift; many mice expose a stray macro key, so
/// one key is not enough.
pub fn looks_like_keyboard(has_a: bool, has_enter: bool, has_space: bool, has_leftshift: bool) -> (b:
    bool)
    ensures
        b == (has_a && has_enter && has_space && has_leftshift),
{
    has_a && has_enter && has_space && has_leftshift
}

/// The keys the action layer emits.
#[derive(Clone, Copy, Debug, PartialEq, Eq, Structural)]
pub enum KeyName {
    SignalChord,
    Up,
    Down,
    Left,
    Right,
    Enter,
    Escape,
    Backspace,
    Tab,
}

/// The intent each action-layer key means.
pub open spec fn spec_intent_for_key(key: KeyName) -> InputIntent {
    match key {
        KeyName::SignalChord => InputIntent::Chord,
        KeyName::Up => InputIntent::Up,
        KeyName::Down => InputIntent::Down,
        KeyName::Left => InputIntent::Left,
        KeyName::Right => InputIntent::Right,
        KeyName::Enter => InputIntent::Confirm,
        KeyName::Escape => InputIntent::Back,
        KeyName::Backspace => InputIntent::Dismiss,
        KeyName::Tab => InputIntent::AnchorCycle,
    }
}

/// The keymap from the action layer's emitted keys to semantic intents. Every
/// key has one.
pub fn intent_for_key(key: KeyName) -> (i: Option<InputIntent>)
    ensures
        i == Some(spec_intent_for_key(key)),
{
    Some(
        match key {
            KeyName::SignalChord => InputIntent::Chord,
            KeyName::Up => InputIntent::Up,
            KeyName::Down => InputIntent::Down,
            KeyName::Left => InputIntent::Left,
            KeyName::Right => InputIntent::Right,
            KeyName::Enter => InputIntent::Confirm,
            KeyName::Escape => InputIntent::Back,
            KeyName::Backspace => InputIntent::Dismiss,
            KeyName::Tab => InputIntent::AnchorCycle,
        },
    )
}

/// Linux key codes (`linux/input-event-codes.h`) of the keys the action
/// layer emits. All are gamescope-unmasked; `F13` is the chord signal.
pub const KEY_ESC: u16 = 1;
pub const KEY_BACKSPACE: u16 = 14;
pub const KEY_TAB: u16 = 15;
pub const KEY_ENTER: u16 = 28;
pub const KEY_KPENTER: u16 = 96;
pub const KEY_UP: u16 = 103;
pub const KEY_LEFT: u16 = 105;
pub const KEY_RIGHT: u16 = 106;
pub const KEY_DOWN: u16 = 108;
pub const KEY_F13: u16 = 183;

/// The action-layer key a raw key code is, if the layer uses it.
pub open spec fn spec_keyname_for_code(code: u16) -> Option<KeyName> {
    if code == KEY_F13 {
        Some(KeyName::SignalChord)
    } else if code == KEY_UP {
        Some(KeyName::Up)
    } else if code == KEY_DOWN {
        Some(KeyName::Down)
    } else if code == KEY_LEFT {
        Some(KeyName::Left)
    } else if code == KEY_RIGHT {
        Some(KeyName::Right)
    } else if code == KEY_ENTER || code == KEY_KPENTER {
        Some(KeyName::Enter)
    } else if code == KEY_ESC {
        Some(KeyName::Escape)
    } else if code == KEY_BACKSPACE {
        Some(KeyName::Backspace)
    } else if code == KEY_TAB {
        Some(KeyName::Tab)
    } else {
        None
    }
}

/// Map a raw key code to a `KeyName`, or `None` if the action layer doesn't
/// use it.
pub fn keyname_for_code(code: u16) -> (k: Option<KeyName>)
    ensures
        k == spec_keyname_for_code(code),
{
    if code == KEY_F13 {
        Some(KeyName::SignalChord)
    } else if code == KEY_UP {
        Some(KeyName::Up)
    } else if code == KEY_DOWN {
        Some(KeyName::Down)
    } else if code == KEY_LEFT {
        Some(KeyName::Left)
    } else if code == KEY_RIGHT {
        Some(KeyName::Right)
    } else if code == KEY_ENTER || code == KEY_KPENTER {
        Some(KeyName::Enter)
    } else if code == KEY_ESC {
        Some(KeyName::Escape)
    } else if code == KEY_BACKSPACE {
        Some(KeyName::Backspace)
    } else if code == KEY_TAB {
        Some(KeyName::Tab)
    } else {
        None
    }
}

/// The intent a key event carries: only presses (value 1) of layer keys count;
/// releases and repeats do not.
pub fn intent_for_event(code: u16, value: i32) -> (i: Option<InputIntent>)
    ensures
        i == (if value == 1 {
            match spec_keyname_for_code(code) {
                Some(k) => Some(spec_intent_for_key(k)),
                None => None,
            }
        } else {
            None
        }),
{
    if value != 1 {
        return None;
    }
    match keyname_for_code(code) {
        Some(k) => intent_for_key(k),
        None => None,
    }
}

/// `EVIOCGRAB` = `_IOW('E', 0x90, int)`: direction write (1) in bits 30..,
/// argument size 4 in bits 16.., type `'E'` in bits 8.., number `0x90`.
pub const EVIOCGRAB: u64 = (1u64 << 30u64) | (4u64 << 16u64) | (0x45u64 << 8u64) | 0x90u64;

/// Directional keys keep their direction: a key gives the `Up`, `Down`,
/// `Left` or `Right` intent exactly when it is the key of that direction, and
/// only the matching arrow key code names each direction.
pub proof fn lemma_directions_kept(key: KeyName, code: u16)
    ensures
        (spec_intent_for_key(key) == InputIntent::Up) <==> key == KeyName::Up,
        (spec_intent_for_key(key) == InputIntent::Down) <==> key == KeyName::Down,
        (spec_intent_for_key(key) == InputIntent::Left) <==> key == KeyName::Left,
        (spec_intent_for_key(key) == InputIntent::Right) <==> key == KeyName::Right,
        (spec_keyname_for_code(code) == Some(KeyName::Up)) <==> code == 103,
        (spec_keyname_for_code(code) == Some(KeyName::Down)) <==> code == 108,
        (spec_keyname_for_code(code) == Some(KeyName::Left)) <==> code == 105,
        (spec_keyname_for_code(code) == Some(KeyName::Right)) <==> code == 106,
{
}

} // verus!
