//! The Steam-Input virtual-keyboard boundary: device recognition and the key
//! → intent map.

use couchcord::input::{intent_for_event, keyname_for_code, EVIOCGRAB};
use couchcord::{intent_for_key, is_steam_virtual_keyboard, looks_like_keyboard, InputIntent, KeyName};

#[test]
fn identifies_steam_virtual_keyboard_only_with_keyboard_caps() {
    assert!(is_steam_virtual_keyboard("Steam Virtual Keyboard", true));
    assert!(is_steam_virtual_keyboard("steam-input virtual", true));
    assert!(!is_steam_virtual_keyboard("Steam Controller", false));
    assert!(!is_steam_virtual_keyboard("ZSA Technology Labs Voyager Keyboard", true));
    assert!(!is_steam_virtual_keyboard("Razer Basilisk V3 Pro", true));
}

#[test]
fn recognition_ignores_case() {
    assert!(is_steam_virtual_keyboard("VIRTUAL core keys", true));
    assert!(is_steam_virtual_keyboard("SteaM", true));
}

#[test]
fn keyboard_signature_requires_more_than_one_key() {
    assert!(looks_like_keyboard(true, true, true, true));
    assert!(!looks_like_keyboard(true, false, false, false));
    assert!(!looks_like_keyboard(true, true, false, false));
}

#[test]
fn every_layer_key_maps_to_an_intent() {
    let all = [
        KeyName::SignalChord,
        KeyName::Up,
        KeyName::Down,
        KeyName::Left,
        KeyName::Right,
        KeyName::Enter,
        KeyName::Escape,
        KeyName::Backspace,
        KeyName::Tab,
    ];
    for k in all {
        assert!(intent_for_key(k).is_some(), "{k:?} must map to an intent");
    }
    assert_eq!(intent_for_key(KeyName::SignalChord), Some(InputIntent::Chord));
    assert_eq!(intent_for_key(KeyName::Enter), Some(InputIntent::Confirm));
    assert_eq!(intent_for_key(KeyName::Tab), Some(InputIntent::AnchorCycle));
}

#[test]
fn eviocgrab_constant_matches_x86_64_value() {
    assert_eq!(EVIOCGRAB, 0x4004_4590);
}

#[test]
fn evdev_keys_map_through_to_intents() {
    let chord = keyname_for_code(evdev::Key::KEY_F13.code()).and_then(intent_for_key);
    assert_eq!(chord, Some(InputIntent::Chord));
    let confirm = keyname_for_code(evdev::Key::KEY_ENTER.code()).and_then(intent_for_key);
    assert_eq!(confirm, Some(InputIntent::Confirm));
    let cycle = keyname_for_code(evdev::Key::KEY_TAB.code()).and_then(intent_for_key);
    assert_eq!(cycle, Some(InputIntent::AnchorCycle));
    assert!(keyname_for_code(evdev::Key::KEY_Q.code()).is_none());
}

#[test]
fn every_mapped_evdev_key_agrees_with_evdev() {
    let pairs = [
        (evdev::Key::KEY_ESC, KeyName::Escape),
        (evdev::Key::KEY_BACKSPACE, KeyName::Backspace),
        (evdev::Key::KEY_UP, KeyName::Up),
        (evdev::Key::KEY_DOWN, KeyName::Down),
        (evdev::Key::KEY_LEFT, KeyName::Left),
        (evdev::Key::KEY_RIGHT, KeyName::Right),
        (evdev::Key::KEY_KPENTER, KeyName::Enter),
    ];
    for (key, name) in pairs {
        assert_eq!(keyname_for_code(key.code()), Some(name));
    }
}

#[test]
fn only_key_presses_become_intents() {
    let enter = evdev::Key::KEY_ENTER.code();
    assert_eq!(intent_for_event(enter, 1), Some(InputIntent::Confirm));
    assert_eq!(intent_for_event(enter, 0), None, "release");
    assert_eq!(intent_for_event(enter, 2), None, "autorepeat");
}
