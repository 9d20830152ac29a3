//! The remap rules, as data.

use vstd::prelude::*;

verus! {

/// The keys that the rules name.
#[derive(Clone, Copy, Debug, PartialEq, Eq, Structural)]
pub enum KeyName {
    LeftMeta,
    RightMeta,
    LeftCtrl,
    Esc,
    A,
    C,
    V,
}

/// The scancode of each named key, as evdev's `Key` constants define it
/// (the values of linux/input-event-codes.h).
pub open spec fn spec_key_code(k: KeyName) -> u16 {
    match k {
        KeyName::LeftMeta => 125,
        KeyName::RightMeta => 126,
        KeyName::LeftCtrl => 29,
        KeyName::Esc => 1,
        KeyName::A => 30,
        KeyName::C => 46,
        KeyName::V => 47,
    }
}

/// Reads the scancode of a named key through evdev's `Key::code`; the contract
/// claims the value of the matching evdev constant.
#[verifier::external_body]
pub(crate) fn key_code(k: KeyName) -> (c: u16)
    ensures
        c == spec_key_code(k),
{
    match k {
        KeyName::LeftMeta => evdev::Key::KEY_LEFTMETA,
        KeyName::RightMeta => evdev::Key::KEY_RIGHTMETA,
        KeyName::LeftCtrl => evdev::Key::KEY_LEFTCTRL,
        KeyName::Esc => evdev::Key::KEY_ESC,
        KeyName::A => evdev::Key::KEY_A,
        KeyName::C => evdev::Key::KEY_C,
        KeyName::V => evdev::Key::KEY_V,
    }.code()
}

/// Keys that act as the macOS Command modifier (Linux reports the Apple
/// Command key as Super/Meta).
pub const META_KEYS: [KeyName; 2] = [KeyName::LeftMeta, KeyName::RightMeta];

/// The modifier that a held Command key is translated into.
pub const OUTPUT_MOD: KeyName = KeyName::LeftCtrl;

/// Keys that become `OUTPUT_MOD + <same key>` when pressed with a Command key held.
pub const REMAPPED: [KeyName; 2] = [KeyName::C, KeyName::V];

/// Emergency ungrab: all `META_KEYS` held together plus this key.
pub const PANIC_KEY: KeyName = KeyName::Esc;

/// A device is taken for a real keyboard only if it reports all of these keys.
pub const KEYBOARD_MARKERS: [KeyName; 3] = [KeyName::A, KeyName::LeftCtrl, KeyName::C];

/// Whether the key code `x` occurs in `v`.
pub fn contains_code(v: &Vec<u16>, x: u16) -> (b: bool)
    ensures
        b == v@.contains(x),
{
    let mut i: usize = 0;
    while i < v.len()
        invariant
            i <= v@.len(),
            forall|j: int| 0 <= j < i ==> v@[j] != x,
        decreases v@.len() - i,
    {
        if v[i] == x {
            return true;
        }
        i = i + 1;
    }
    false
}

/// The scancodes of a list of named keys, in order.
pub open spec fn spec_codes(keys: Seq<KeyName>) -> Seq<u16> {
    keys.map_values(|k: KeyName| spec_key_code(k))
}

/// The scancodes of a list of named keys, in order.
pub fn codes_of(keys: &[KeyName]) -> (codes: Vec<u16>)
    ensures
        codes@ == spec_codes(keys@),
{
    let mut codes: Vec<u16> = Vec::new();
    let mut i: usize = 0;
    while i < keys.len()
        invariant
            i <= keys@.len(),
            codes@ == spec_codes(keys@.take(i as int)),
        decreases keys@.len() - i,
    {
        codes.push(key_code(keys[i]));
        assert(keys@.take(i + 1) =~= keys@.take(i as int).push(keys@[i as int]));
        i = i + 1;
    }
    assert(keys@.take(keys@.len() as int) =~= keys@);
    codes
}

} // verus!
