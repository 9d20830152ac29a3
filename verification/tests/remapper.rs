use evdev::{EventType, Key};
use key_remap::event::{key_ev, syn, Event};
use key_remap::remapper::Mapper;

fn codes() -> (u16, u16, u16, u16, u16, u16, u16) {
    (
        Key::KEY_LEFTMETA.code(),
        Key::KEY_RIGHTMETA.code(),
        Key::KEY_C.code(),
        Key::KEY_V.code(),
        Key::KEY_D.code(),
        Key::KEY_ESC.code(),
        Key::KEY_LEFTCTRL.code(),
    )
}

/// Reduce emitted events to (code, value) pairs for easy assertions.
fn pairs(evs: &[Event]) -> Vec<(u16, i32)> {
    evs.iter()
        .filter(|e| e.kind == EventType::KEY.0)
        .map(|e| (e.code, e.value))
        .collect()
}

#[test]
fn cmd_c_becomes_ctrl_c() {
    let (meta, _, c, _, _, _, ctrl) = codes();
    let mut m = Mapper::new();
    assert!(pairs(&m.process(&key_ev(meta, 1))).is_empty()); // Command buffered
    assert_eq!(pairs(&m.process(&key_ev(c, 1))), vec![(ctrl, 1), (c, 1)]);
    assert_eq!(pairs(&m.process(&key_ev(c, 0))), vec![(c, 0), (ctrl, 0)]);
    // Releasing Command after a copy must NOT tap Super (would open Activities).
    assert!(pairs(&m.process(&key_ev(meta, 0))).is_empty());
}

#[test]
fn cmd_v_becomes_ctrl_v() {
    let (meta, _, _, v, _, _, ctrl) = codes();
    let mut m = Mapper::new();
    m.process(&key_ev(meta, 1));
    assert_eq!(pairs(&m.process(&key_ev(v, 1))), vec![(ctrl, 1), (v, 1)]);
}

#[test]
fn lone_cmd_taps_super() {
    let (meta, ..) = codes();
    let mut m = Mapper::new();
    assert!(pairs(&m.process(&key_ev(meta, 1))).is_empty());
    assert_eq!(pairs(&m.process(&key_ev(meta, 0))), vec![(meta, 1), (meta, 0)]);
}

#[test]
fn super_plus_other_passes_through() {
    let (meta, _, _, _, d, _, _) = codes();
    let mut m = Mapper::new();
    m.process(&key_ev(meta, 1));
    // Super+D: buffered Command is flushed, then D.
    assert_eq!(pairs(&m.process(&key_ev(d, 1))), vec![(meta, 1), (d, 1)]);
    assert_eq!(pairs(&m.process(&key_ev(d, 0))), vec![(d, 0)]);
    assert_eq!(pairs(&m.process(&key_ev(meta, 0))), vec![(meta, 0)]);
}

#[test]
fn plain_c_is_untouched() {
    let (_, _, c, ..) = codes();
    let mut m = Mapper::new();
    assert_eq!(pairs(&m.process(&key_ev(c, 1))), vec![(c, 1)]);
    assert_eq!(pairs(&m.process(&key_ev(c, 0))), vec![(c, 0)]);
}

#[test]
fn meta_released_before_letter_still_closes_ctrl() {
    let (meta, _, c, _, _, _, ctrl) = codes();
    let mut m = Mapper::new();
    m.process(&key_ev(meta, 1));
    assert_eq!(pairs(&m.process(&key_ev(c, 1))), vec![(ctrl, 1), (c, 1)]);
    m.process(&key_ev(meta, 0)); // release Command while C still held
    assert_eq!(pairs(&m.process(&key_ev(c, 0))), vec![(c, 0), (ctrl, 0)]);
}

#[test]
fn both_cmd_plus_esc_quits() {
    let (lmeta, rmeta, _, _, _, esc, _) = codes();
    let mut m = Mapper::new();
    m.process(&key_ev(lmeta, 1));
    m.process(&key_ev(rmeta, 1));
    m.process(&key_ev(esc, 1));
    assert!(m.quit);
}

// ---- further cases ----

#[test]
fn key_events_carry_evdev_types() {
    let e = key_ev(46, 1);
    assert_eq!(e, Event { kind: EventType::KEY.0, code: 46, value: 1 });
    assert_eq!(e.kind, 1);
    let s = syn();
    assert_eq!(s, Event { kind: EventType::SYNCHRONIZATION.0, code: 0, value: 0 });
}

#[test]
fn non_key_events_are_dropped() {
    let (meta, _, c, ..) = codes();
    let mut m = Mapper::new();
    let msc = Event { kind: EventType::MISC.0, code: 4, value: 458_758 };
    assert!(m.process(&msc).is_empty());
    assert!(m.process(&syn()).is_empty());
    m.process(&key_ev(meta, 1));
    // A non-key event while Command is held flushes nothing.
    assert!(m.process(&msc).is_empty());
    assert_eq!(pairs(&m.process(&key_ev(c, 1))), vec![(29, 1), (c, 1)]);
}

#[test]
fn plain_ctrl_c_is_untouched() {
    let (_, _, c, _, _, _, ctrl) = codes();
    let mut m = Mapper::new();
    assert_eq!(m.process(&key_ev(ctrl, 1)), vec![key_ev(ctrl, 1)]);
    assert_eq!(m.process(&key_ev(c, 1)), vec![key_ev(c, 1)]);
    assert_eq!(m.process(&key_ev(c, 2)), vec![key_ev(c, 2)]);
    assert_eq!(m.process(&key_ev(c, 0)), vec![key_ev(c, 0)]);
    assert_eq!(m.process(&key_ev(ctrl, 0)), vec![key_ev(ctrl, 0)]);
    assert!(!m.quit);
}

#[test]
fn command_autorepeat_is_ignored() {
    let (meta, ..) = codes();
    let mut m = Mapper::new();
    assert!(m.process(&key_ev(meta, 1)).is_empty());
    assert!(m.process(&key_ev(meta, 2)).is_empty());
    assert!(m.process(&key_ev(meta, 2)).is_empty());
    // Still a lone tap.
    assert_eq!(pairs(&m.process(&key_ev(meta, 0))), vec![(meta, 1), (meta, 0)]);
}

#[test]
fn remapped_autorepeat_keeps_ctrl_down() {
    let (meta, _, c, _, _, _, ctrl) = codes();
    let mut m = Mapper::new();
    m.process(&key_ev(meta, 1));
    assert_eq!(pairs(&m.process(&key_ev(c, 1))), vec![(ctrl, 1), (c, 1)]);
    assert_eq!(pairs(&m.process(&key_ev(c, 2))), vec![(c, 2)]);
    assert_eq!(pairs(&m.process(&key_ev(c, 0))), vec![(c, 0), (ctrl, 0)]);
}

#[test]
fn super_combo_then_copy_releases_super_first() {
    let (meta, _, c, _, d, _, ctrl) = codes();
    let mut m = Mapper::new();
    m.process(&key_ev(meta, 1));
    assert_eq!(pairs(&m.process(&key_ev(d, 1))), vec![(meta, 1), (d, 1)]);
    assert_eq!(pairs(&m.process(&key_ev(d, 0))), vec![(d, 0)]);
    // Super was forwarded; a copy now releases it so the app sees only Ctrl+C.
    assert_eq!(pairs(&m.process(&key_ev(c, 1))), vec![(meta, 0), (ctrl, 1), (c, 1)]);
    assert_eq!(pairs(&m.process(&key_ev(c, 0))), vec![(c, 0), (ctrl, 0)]);
    assert!(m.process(&key_ev(meta, 0)).is_empty());
}

#[test]
fn right_command_works_too() {
    let (_, rmeta, _, v, _, _, ctrl) = codes();
    let mut m = Mapper::new();
    assert!(m.process(&key_ev(rmeta, 1)).is_empty());
    assert_eq!(pairs(&m.process(&key_ev(v, 1))), vec![(ctrl, 1), (v, 1)]);
    assert_eq!(pairs(&m.process(&key_ev(v, 0))), vec![(v, 0), (ctrl, 0)]);
    assert!(m.process(&key_ev(rmeta, 0)).is_empty());
}

#[test]
fn one_command_plus_esc_does_not_quit() {
    let (lmeta, _, _, _, _, esc, _) = codes();
    let mut m = Mapper::new();
    m.process(&key_ev(lmeta, 1));
    // Esc with one Command held is a Super combo.
    assert_eq!(pairs(&m.process(&key_ev(esc, 1))), vec![(lmeta, 1), (esc, 1)]);
    assert!(!m.quit);
    assert!(!m.quit_requested());
}

#[test]
fn panic_combo_emits_nothing_and_stays_quit() {
    let (lmeta, rmeta, c, _, _, esc, _) = codes();
    let mut m = Mapper::new();
    assert!(m.process(&key_ev(lmeta, 1)).is_empty());
    assert!(m.process(&key_ev(rmeta, 1)).is_empty());
    assert!(m.process(&key_ev(esc, 1)).is_empty());
    assert!(m.quit_requested());
    m.process(&key_ev(c, 1));
    assert!(m.quit);
}

#[test]
fn two_commands_release_order() {
    let (lmeta, rmeta, ..) = codes();
    let mut m = Mapper::new();
    m.process(&key_ev(lmeta, 1));
    m.process(&key_ev(rmeta, 1));
    // Releasing one while the other is held emits nothing.
    assert!(m.process(&key_ev(lmeta, 0)).is_empty());
    // Releasing the last one taps it: the hold did nothing else.
    assert_eq!(pairs(&m.process(&key_ev(rmeta, 0))), vec![(rmeta, 1), (rmeta, 0)]);
}

#[test]
fn mapper_helpers() {
    let (lmeta, rmeta, c, v, d, ..) = codes();
    let mut m = Mapper::default();
    assert!(m.is_meta(lmeta) && m.is_meta(rmeta) && !m.is_meta(c));
    assert!(m.is_remapped(c) && m.is_remapped(v) && !m.is_remapped(d));
    assert!(!m.meta_held() && !m.all_metas_held());
    m.process(&key_ev(lmeta, 1));
    assert!(m.meta_held() && !m.all_metas_held());
    m.process(&key_ev(rmeta, 1));
    assert!(m.all_metas_held());
}

/// Replays emitted events onto a set of keys held down on the virtual keyboard.
fn replay_down(down: &mut Vec<u16>, evs: &[Event]) {
    for e in evs.iter().filter(|e| e.kind == EventType::KEY.0) {
        match e.value {
            1 => {
                if !down.contains(&e.code) {
                    down.push(e.code)
                }
            }
            0 => down.retain(|&k| k != e.code),
            _ => {}
        }
    }
}

#[test]
fn released_command_is_never_flushed() {
    let (lmeta, rmeta, _, _, d, _, _) = codes();
    let mut m = Mapper::new();
    let mut out = Vec::new();
    for (code, v) in [(lmeta, 1), (rmeta, 1), (rmeta, 0), (d, 1), (d, 0), (lmeta, 0)] {
        out.extend(pairs(&m.process(&key_ev(code, v))));
    }
    // The Super combo uses the Command key still held, and it is released.
    assert_eq!(out, vec![(lmeta, 1), (d, 1), (d, 0), (lmeta, 0)]);
}

#[test]
fn balanced_input_leaves_nothing_down() {
    let (lmeta, rmeta, c, v, d, _, ctrl) = codes();
    let script = [
        (lmeta, 1), (rmeta, 1), (rmeta, 0), (d, 1), (d, 0), (lmeta, 0),
        (lmeta, 1), (d, 1), (c, 1), (c, 2), (c, 0), (d, 0), (lmeta, 0),
        (rmeta, 1), (v, 1), (rmeta, 0), (v, 0),
        (ctrl, 1), (lmeta, 1), (c, 1), (c, 0), (lmeta, 0), (ctrl, 0),
        (rmeta, 1), (rmeta, 0),
    ];
    let mut m = Mapper::new();
    let mut down: Vec<u16> = Vec::new();
    for (code, val) in script {
        let out = m.process(&key_ev(code, val));
        replay_down(&mut down, &out);
        if pairs(&out).ends_with(&[(ctrl, 1), (code, 1)]) && (code == c || code == v) {
            // Right after Cmd+C / Cmd+V becomes Ctrl+C / Ctrl+V, no Super is down.
            assert!(!down.contains(&lmeta) && !down.contains(&rmeta));
        }
    }
    assert!(down.is_empty(), "still down: {:?}", down);
}
