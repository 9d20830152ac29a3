use evdev::Key;
use key_remap::config::{codes_of, KeyName, KEYBOARD_MARKERS, META_KEYS, REMAPPED};
use key_remap::device::{handle_event, is_keyboard, virtual_keyboard_keys, DeviceAction};
use key_remap::event::{key_ev, syn};
use key_remap::remapper::Mapper;

#[test]
fn key_codes_come_from_evdev() {
    let all = [
        KeyName::LeftMeta,
        KeyName::RightMeta,
        KeyName::LeftCtrl,
        KeyName::Esc,
        KeyName::A,
        KeyName::C,
        KeyName::V,
    ];
    assert_eq!(codes_of(&all), vec![Key::KEY_LEFTMETA.code(), 126, 29, 1, 30, 46, 47]);
    assert_eq!(codes_of(&META_KEYS), vec![125, 126]);
    assert_eq!(codes_of(&REMAPPED), vec![46, 47]);
    assert_eq!(codes_of(&KEYBOARD_MARKERS), vec![30, 29, 46]);
}

#[test]
fn keyboard_detection() {
    assert!(!is_keyboard(&None));
    assert!(!is_keyboard(&Some(vec![])));
    // A power button.
    assert!(!is_keyboard(&Some(vec![116])));
    assert!(!is_keyboard(&Some(vec![30, 29])));
    assert!(is_keyboard(&Some(vec![1, 29, 30, 46, 47])));
    assert!(is_keyboard(&Some(vec![46, 30, 29])));
}

#[test]
fn virtual_keyboard_declares_all_keys_once() {
    let keys = virtual_keyboard_keys(&vec![vec![1, 2, 30], vec![30, 31], vec![]]);
    let mut sorted = keys.clone();
    sorted.sort();
    assert_eq!(sorted, vec![1, 2, 29, 30, 31, 46, 47, 125, 126]);
    let none = virtual_keyboard_keys(&vec![]);
    let mut sorted = none.clone();
    sorted.sort();
    assert_eq!(sorted, vec![29, 46, 47, 125, 126]);
}

#[test]
fn device_loop_decisions() {
    let mut m = Mapper::new();
    match handle_event(&mut m, &key_ev(125, 1)) {
        DeviceAction::Nothing => {}
        _ => panic!("a Command press is buffered"),
    }
    match handle_event(&mut m, &key_ev(46, 1)) {
        DeviceAction::Emit(batch) => assert_eq!(batch, vec![key_ev(29, 1), key_ev(46, 1), syn()]),
        _ => panic!("Cmd+C emits Ctrl+C"),
    }
    match handle_event(&mut m, &key_ev(126, 1)) {
        DeviceAction::Nothing => {}
        _ => panic!("a second Command press is buffered"),
    }
    match handle_event(&mut m, &key_ev(1, 1)) {
        DeviceAction::Quit => {}
        _ => panic!("both Command keys and Esc quit"),
    }
}
