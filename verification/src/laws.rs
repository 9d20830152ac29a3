//! What holds of the remap state machine across all inputs and across several
//! events: the invariant it keeps, the rules it never changes, and the
//! behaviour it promises for copy, paste, Super and the escape hatch.

use vstd::prelude::*;

use crate::config::{spec_key_code, KeyName};
use crate::event::{spec_event_type_code, spec_key_ev, Event, EventKind};
use crate::device::declared;
use crate::remapper::{not_code, step, MapperView};

verus! {

broadcast use vstd::seq_lib::group_filter_ensures;

/// A state with no Command key held and no key being translated.
pub open spec fn idle(s: MapperView) -> bool {
    &&& s.held_metas.len() == 0
    &&& s.translating is None
}

/// The initial state keeps the invariant, and it is idle.
pub proof fn lemma_initial_wf()
    ensures
        MapperView::initial().wf(),
        idle(MapperView::initial()),
{
    let s = MapperView::initial();
    assert(s.meta_codes =~= seq![spec_key_code(KeyName::LeftMeta), spec_key_code(KeyName::RightMeta)]);
    assert(s.remapped =~= seq![spec_key_code(KeyName::C), spec_key_code(KeyName::V)]);
    assert forall|x: u16| #[trigger] s.meta_codes.contains(x) implies !s.remapped.contains(x) && x != s.panic by {
        assert(x == 125 || x == 126);
    }
}

/// Removing a code keeps exactly the other elements.
pub proof fn lemma_remove_code_contains(held: Seq<u16>, code: u16, x: u16)
    ensures
        held.filter(not_code(code)).contains(x) <==> (held.contains(x) && x != code),
{
    if held.filter(not_code(code)).contains(x) {
        held.lemma_filter_contains_rev(not_code(code), x);
        let i = choose|i: int| 0 <= i < held.filter(not_code(code)).len() && held.filter(not_code(code))[i] == x;
        held.lemma_filter_pred(not_code(code), i);
    }
    if held.contains(x) && x != code {
        let i = choose|i: int| 0 <= i < held.len() && held[i] == x;
        held.lemma_filter_contains(not_code(code), i);
    }
}

/// Filtering keeps a sequence free of duplicates.
pub proof fn lemma_filter_no_duplicates(s: Seq<u16>, pred: spec_fn(u16) -> bool)
    requires
        s.no_duplicates(),
    ensures
        s.filter(pred).no_duplicates(),
    decreases s.len(),
{
    reveal(Seq::filter);
    if s.len() > 0 {
        let rest = s.drop_last();
        assert(rest.no_duplicates()) by {
            assert forall|i: int, j: int| 0 <= i < rest.len() && 0 <= j < rest.len() && i != j implies rest[i] != rest[j] by {
                assert(rest[i] == s[i] && rest[j] == s[j]);
            }
        }
        lemma_filter_no_duplicates(rest, pred);
        if pred(s.last()) {
            let f = rest.filter(pred);
            if f.contains(s.last()) {
                rest.lemma_filter_contains_rev(pred, s.last());
                let k = choose|k: int| 0 <= k < rest.len() && rest[k] == s.last();
                assert(s[k] == s[s.len() - 1]);
            }
            let g = f.push(s.last());
            assert forall|i: int, j: int| 0 <= i < g.len() && 0 <= j < g.len() && i != j implies g[i] != g[j] by {
                if i == g.len() - 1 {
                    assert(f[j] == g[j]);
                } else if j == g.len() - 1 {
                    assert(f[i] == g[i]);
                }
            }
        }
    }
}

/// Every step keeps the invariant.
pub proof fn lemma_step_preserves_wf(s: MapperView, ev: Event)
    requires
        s.wf(),
    ensures
        step(s, ev).0.wf(),
{
    let t = step(s, ev).0;
    if ev.kind == spec_event_type_code(EventKind::Key) && s.meta_codes.contains(ev.code) {
        let code = ev.code;
        if ev.value == 1 {
            assert forall|x: u16| #[trigger] t.held_metas.contains(x) implies s.held_metas.contains(x) || x == code by {
                if !s.held_metas.contains(x) && s.held_metas.contains(code) {
                } else if !s.held_metas.contains(x) {
                    let i = choose|i: int| 0 <= i < t.held_metas.len() && t.held_metas[i] == x;
                    if i < s.held_metas.len() {
                        assert(s.held_metas[i] == x);
                    }
                }
            }
            if !s.held_metas.contains(code) {
                assert(t.held_metas[s.held_metas.len() as int] == code);
                assert forall|i: int, j: int| 0 <= i < t.held_metas.len() && 0 <= j < t.held_metas.len() && i != j
                    implies t.held_metas[i] != t.held_metas[j] by {
                    if i == s.held_metas.len() {
                        assert(s.held_metas[j] == t.held_metas[j]);
                    } else if j == s.held_metas.len() {
                        assert(s.held_metas[i] == t.held_metas[i]);
                    }
                }
            }
            assert forall|x: u16| s.held_metas.contains(x) implies #[trigger] t.held_metas.contains(x) by {
                if !s.held_metas.contains(code) {
                    let i = choose|i: int| 0 <= i < s.held_metas.len() && s.held_metas[i] == x;
                    assert(t.held_metas[i] == x);
                }
            }
        } else if ev.value == 0 {
            let held = s.held_metas.filter(not_code(code));
            assert forall|x: u16| #[trigger] held.contains(x) <==> (s.held_metas.contains(x) && x != code) by {
                lemma_remove_code_contains(s.held_metas, code, x);
            }
            lemma_filter_no_duplicates(s.held_metas, not_code(code));
            if held.len() > 0 {
                assert(held.contains(held.last()));
            }
        }
    }
}

/// No step changes the rules: the Command keys, the remapped keys, the output
/// modifier and the panic key.
pub proof fn lemma_step_keeps_rules(s: MapperView, ev: Event)
    ensures
        step(s, ev).0.meta_codes == s.meta_codes,
        step(s, ev).0.remapped == s.remapped,
        step(s, ev).0.output_mod == s.output_mod,
        step(s, ev).0.panic == s.panic,
{
}

/// Once the escape hatch has been pressed, the quit flag stays set.
pub proof fn lemma_quit_is_sticky(s: MapperView, ev: Event)
    requires
        s.quit,
    ensures
        step(s, ev).0.quit,
{
}

/// Events that are not key events are dropped and change nothing.
pub proof fn lemma_non_key_events_dropped(s: MapperView, ev: Event)
    requires
        ev.kind != spec_event_type_code(EventKind::Key),
    ensures
        step(s, ev).0 == s,
        step(s, ev).1 == Seq::<Event>::empty(),
{
}

/// A Command press, and a Command autorepeat, emit nothing: the press is
/// buffered, the autorepeat ignored (and changes nothing).
pub proof fn lemma_command_press_is_buffered(s: MapperView, code: u16, value: i32)
    requires
        s.meta_codes.contains(code),
        value != 0,
    ensures
        step(s, spec_key_ev(code, value)).1 == Seq::<Event>::empty(),
        value != 1 ==> step(s, spec_key_ev(code, value)).0 == s,
{
}

/// With no Command key held and nothing being translated, every key event
/// other than a Command key passes through unchanged (plain Ctrl+C and plain
/// C stay what they are), and the state does not change.
pub proof fn lemma_plain_keys_untouched(s: MapperView, code: u16, value: i32)
    requires
        s.wf(),
        idle(s),
        !s.meta_codes.contains(code),
    ensures
        step(s, spec_key_ev(code, value)).0 == s,
        step(s, spec_key_ev(code, value)).1 == seq![spec_key_ev(code, value)],
{
    assert(s.held_metas.len() == 0);
    if !s.all_metas_held() {
    } else {
        assert(s.held_metas.contains(s.meta_codes[0]));
    }
}

/// A Command key pressed and released alone taps Super: nothing on the press,
/// then a press and a release of that Command key.
pub proof fn lemma_lone_command_taps_super(s: MapperView, m: u16)
    requires
        s.wf(),
        s.held_metas.len() == 0,
        s.meta_codes.contains(m),
    ensures
        step(s, spec_key_ev(m, 1)).1 == Seq::<Event>::empty(),
        step(step(s, spec_key_ev(m, 1)).0, spec_key_ev(m, 0)).1 == seq![spec_key_ev(m, 1), spec_key_ev(m, 0)],
        idle(step(step(s, spec_key_ev(m, 1)).0, spec_key_ev(m, 0)).0) == (s.translating is None),
{
    let s1 = step(s, spec_key_ev(m, 1)).0;
    assert(s1.held_metas =~= seq![m]);
    reveal_with_fuel(Seq::filter, 2);
    assert(seq![m].drop_last() =~= Seq::<u16>::empty());
    assert(s1.held_metas.filter(not_code(m)) =~= Seq::<u16>::empty());
}

/// Cmd+C (and Cmd+V) becomes Ctrl+C: Command down emits nothing, the key down
/// emits Ctrl down then the key down, the key up emits the key up then Ctrl up,
/// and releasing Command afterwards does not tap Super. The mapper is idle again.
pub proof fn lemma_command_combo_becomes_ctrl_combo(s: MapperView, m: u16, c: u16)
    requires
        s.wf(),
        idle(s),
        s.meta_codes.contains(m),
        s.remapped.contains(c),
    ensures
        ({
            let (s1, o1) = step(s, spec_key_ev(m, 1));
            let (s2, o2) = step(s1, spec_key_ev(c, 1));
            let (s3, o3) = step(s2, spec_key_ev(c, 0));
            let (s4, o4) = step(s3, spec_key_ev(m, 0));
            &&& o1 == Seq::<Event>::empty()
            &&& o2 == seq![spec_key_ev(s.output_mod, 1), spec_key_ev(c, 1)]
            &&& o3 == seq![spec_key_ev(c, 0), spec_key_ev(s.output_mod, 0)]
            &&& o4 == Seq::<Event>::empty()
            &&& idle(s4)
            &&& s4.quit == s.quit
        }),
{
    let (s1, o1) = step(s, spec_key_ev(m, 1));
    assert(s1.held_metas =~= seq![m]);
    assert(!s.meta_codes.contains(c));
    let (s2, o2) = step(s1, spec_key_ev(c, 1));
    assert(o2 =~= seq![spec_key_ev(s.output_mod, 1), spec_key_ev(c, 1)]);
    let (s3, o3) = step(s2, spec_key_ev(c, 0));
    assert(s3.held_metas =~= seq![m]);
    reveal_with_fuel(Seq::filter, 2);
    assert(seq![m].drop_last() =~= Seq::<u16>::empty());
    assert(s3.held_metas.filter(not_code(m)) =~= Seq::<u16>::empty());
}

/// Releasing Command before the remapped key still closes the Ctrl combo: the
/// Command release emits nothing (no Super tap), and the key release emits the
/// key up then Ctrl up.
pub proof fn lemma_command_released_first_closes_ctrl(s: MapperView, m: u16, c: u16)
    requires
        s.wf(),
        idle(s),
        s.meta_codes.contains(m),
        s.remapped.contains(c),
    ensures
        ({
            let (s1, o1) = step(s, spec_key_ev(m, 1));
            let (s2, o2) = step(s1, spec_key_ev(c, 1));
            let (s3, o3) = step(s2, spec_key_ev(m, 0));
            let (s4, o4) = step(s3, spec_key_ev(c, 0));
            &&& o2 == seq![spec_key_ev(s.output_mod, 1), spec_key_ev(c, 1)]
            &&& o3 == Seq::<Event>::empty()
            &&& o4 == seq![spec_key_ev(c, 0), spec_key_ev(s.output_mod, 0)]
            &&& idle(s4)
        }),
{
    let (s1, o1) = step(s, spec_key_ev(m, 1));
    assert(s1.held_metas =~= seq![m]);
    assert(!s.meta_codes.contains(c));
    let (s2, o2) = step(s1, spec_key_ev(c, 1));
    assert(o2 =~= seq![spec_key_ev(s.output_mod, 1), spec_key_ev(c, 1)]);
    reveal_with_fuel(Seq::filter, 2);
    assert(seq![m].drop_last() =~= Seq::<u16>::empty());
    assert(s2.held_metas.filter(not_code(m)) =~= Seq::<u16>::empty());
}

/// Super plus any other key passes through as a Super combo: the buffered
/// Command press is flushed before the key, the key release passes through, and
/// the Command release is forwarded.
pub proof fn lemma_super_combo_passes_through(s: MapperView, m: u16, d: u16)
    requires
        s.wf(),
        idle(s),
        s.meta_codes.contains(m),
        !s.meta_codes.contains(d),
        !s.remapped.contains(d),
        d != s.panic,
    ensures
        ({
            let (s1, o1) = step(s, spec_key_ev(m, 1));
            let (s2, o2) = step(s1, spec_key_ev(d, 1));
            let (s3, o3) = step(s2, spec_key_ev(d, 0));
            let (s4, o4) = step(s3, spec_key_ev(m, 0));
            &&& o1 == Seq::<Event>::empty()
            &&& o2 == seq![spec_key_ev(m, 1), spec_key_ev(d, 1)]
            &&& o3 == seq![spec_key_ev(d, 0)]
            &&& o4 == seq![spec_key_ev(m, 0)]
            &&& idle(s4)
            &&& s4.emitted_meta is None
        }),
{
    let (s1, o1) = step(s, spec_key_ev(m, 1));
    assert(s1.held_metas =~= seq![m]);
    let (s2, o2) = step(s1, spec_key_ev(d, 1));
    let (s3, o3) = step(s2, spec_key_ev(d, 0));
    reveal_with_fuel(Seq::filter, 2);
    assert(seq![m].drop_last() =~= Seq::<u16>::empty());
    assert(s3.held_metas.filter(not_code(m)) =~= Seq::<u16>::empty());
}

/// The escape hatch: with every Command key held, pressing the panic key sets
/// the quit flag and emits nothing.
pub proof fn lemma_panic_combo_quits(s: MapperView)
    requires
        s.wf(),
        s.all_metas_held(),
    ensures
        step(s, spec_key_ev(s.panic, 1)).0.quit,
        step(s, spec_key_ev(s.panic, 1)).1 == Seq::<Event>::empty(),
{
}

/// Pressing the panic key quits only when every Command key is held: otherwise
/// the quit flag keeps its value.
pub proof fn lemma_panic_needs_all_commands(s: MapperView, ev: Event)
    requires
        s.wf(),
        !s.all_metas_held(),
    ensures
        step(s, ev).0.quit == s.quit,
{
}

/// Both Command keys pressed, then the panic key, quits: from an idle mapper
/// whose Command keys are `a` and `b`, the third event sets the quit flag, and
/// none of the three emits anything.
pub proof fn lemma_both_commands_and_panic_quit(s: MapperView, a: u16, b: u16)
    requires
        s.wf(),
        idle(s),
        s.meta_codes == seq![a, b],
    ensures
        ({
            let (s1, o1) = step(s, spec_key_ev(a, 1));
            let (s2, o2) = step(s1, spec_key_ev(b, 1));
            let (s3, o3) = step(s2, spec_key_ev(s.panic, 1));
            &&& o1 == Seq::<Event>::empty()
            &&& o2 == Seq::<Event>::empty()
            &&& o3 == Seq::<Event>::empty()
            &&& s3.quit
        }),
{
    assert(s.meta_codes.contains(a) && s.meta_codes[0] == a);
    assert(s.meta_codes.contains(b) && s.meta_codes[1] == b);
    let (s1, o1) = step(s, spec_key_ev(a, 1));
    assert(s1.held_metas =~= seq![a]);
    let (s2, o2) = step(s1, spec_key_ev(b, 1));
    if a == b {
        assert(s1.held_metas[0] == a);
    } else {
        assert(s2.held_metas =~= seq![a, b]);
        assert(s2.held_metas[1] == b);
    }
    assert(s2.held_metas.contains(a));
    assert(s2.held_metas.contains(b));
    assert(s2.all_metas_held());
}

// ---- what the keyboard holds down ----

/// The keys held down after one event: a key press adds its code, a key
/// release removes it, anything else leaves the set as it is.
pub open spec fn press(down: Set<u16>, ev: Event) -> Set<u16> {
    if ev.kind != spec_event_type_code(EventKind::Key) {
        down
    } else if ev.value == 1 {
        down.insert(ev.code)
    } else if ev.value == 0 {
        down.remove(ev.code)
    } else {
        down
    }
}

/// The keys held down after a sequence of events.
pub open spec fn replay(down: Set<u16>, evs: Seq<Event>) -> Set<u16>
    decreases evs.len(),
{
    if evs.len() == 0 {
        down
    } else {
        replay(press(down, evs[0]), evs.drop_first())
    }
}

/// An event a real keyboard can send while the keys `down` are held: a key is
/// pressed only when it is up, released or repeated only when it is down.
pub open spec fn input_ok(down: Set<u16>, ev: Event) -> bool {
    ||| ev.kind != spec_event_type_code(EventKind::Key)
    ||| (ev.value == 1 && !down.contains(ev.code))
    ||| ((ev.value == 0 || ev.value == 2) && down.contains(ev.code))
}

/// A sequence of events a real keyboard can send, starting with the keys `down` held.
pub open spec fn input_ok_seq(down: Set<u16>, evs: Seq<Event>) -> bool
    decreases evs.len(),
{
    evs.len() == 0 || (input_ok(down, evs[0]) && input_ok_seq(press(down, evs[0]), evs.drop_first()))
}

/// The state and all the events emitted after feeding a sequence of events.
pub open spec fn run(s: MapperView, evs: Seq<Event>) -> (MapperView, Seq<Event>)
    decreases evs.len(),
{
    if evs.len() == 0 {
        (s, Seq::empty())
    } else {
        let (s1, o1) = step(s, evs[0]);
        let (s2, o2) = run(s1, evs.drop_first());
        (s2, o1 + o2)
    }
}

/// How the keys held on the physical keyboard (`p`), the keys held on the
/// virtual keyboard (`o`) and the mapper's state fit together: the held list
/// mirrors the physically held Command keys; the only Command key down on the
/// output is the forwarded one, which is physically held; Ctrl is down on the
/// output only while it or the key being translated is physically held; every
/// other key is down on the output only while it is physically held.
pub open spec fn balanced(s: MapperView, p: Set<u16>, o: Set<u16>) -> bool {
    &&& s.wf()
    &&& forall|m: u16| #[trigger] s.meta_codes.contains(m) ==> (s.held_metas.contains(m) <==> p.contains(m))
    &&& forall|k: u16| #[trigger] o.contains(k) ==> if s.meta_codes.contains(k) {
        s.emitted_meta == Some(k)
    } else if k == s.output_mod {
        p.contains(k) || (s.translating matches Some(t) && p.contains(t))
    } else {
        p.contains(k)
    }
    &&& (s.translating matches Some(t) ==> p.contains(t))
}

/// Replaying up to three events, one by one.
pub proof fn lemma_replay_short(o: Set<u16>, out: Seq<Event>)
    requires
        out.len() <= 3,
    ensures
        out.len() == 0 ==> replay(o, out) == o,
        out.len() == 1 ==> replay(o, out) == press(o, out[0]),
        out.len() == 2 ==> replay(o, out) == press(press(o, out[0]), out[1]),
        out.len() == 3 ==> replay(o, out) == press(press(press(o, out[0]), out[1]), out[2]),
{
    reveal_with_fuel(replay, 4);
    if out.len() >= 1 {
        let r1 = out.drop_first();
        if out.len() >= 2 {
            assert(r1[0] == out[1]);
            let r2 = r1.drop_first();
            if out.len() == 3 {
                assert(r2[0] == out[2]);
                assert(r2.drop_first().len() == 0);
            } else {
                assert(r2.len() == 0);
            }
        } else {
            assert(r1.len() == 0);
        }
    }
}

/// Replaying two sequences one after the other replays their concatenation.
pub proof fn lemma_replay_concat(o: Set<u16>, a: Seq<Event>, b: Seq<Event>)
    ensures
        replay(o, a + b) == replay(replay(o, a), b),
    decreases a.len(),
{
    if a.len() == 0 {
        assert(a + b =~= b);
    } else {
        assert((a + b).drop_first() =~= a.drop_first() + b);
        assert((a + b)[0] == a[0]);
        lemma_replay_concat(press(o, a[0]), a.drop_first(), b);
    }
}

/// The initial mapper is balanced with no key held anywhere.
pub proof fn lemma_initial_balanced()
    ensures
        balanced(MapperView::initial(), Set::empty(), Set::empty()),
{
    lemma_initial_wf();
}

/// Every step keeps the fit between the physical and the virtual keyboard.
pub proof fn lemma_step_balanced(s: MapperView, p: Set<u16>, o: Set<u16>, ev: Event)
    requires
        balanced(s, p, o),
        input_ok(p, ev),
    ensures
        balanced(step(s, ev).0, press(p, ev), replay(o, step(s, ev).1)),
{
    lemma_step_preserves_wf(s, ev);
    let (t, out) = step(s, ev);
    let p2 = press(p, ev);
    let o2 = replay(o, out);
    lemma_replay_short(o, out);
    let code = ev.code;
    if ev.kind != spec_event_type_code(EventKind::Key) {
    } else if s.meta_codes.contains(code) {
        if ev.value == 1 {
            assert forall|m: u16| #[trigger] t.meta_codes.contains(m) implies (t.held_metas.contains(m) <==> p2.contains(m)) by {
                if m != code && t.held_metas.contains(m) && !s.held_metas.contains(code) {
                    let i = choose|i: int| 0 <= i < t.held_metas.len() && t.held_metas[i] == m;
                    if i < s.held_metas.len() {
                        assert(s.held_metas[i] == m);
                    }
                }
                if s.held_metas.contains(m) && !s.held_metas.contains(code) {
                    let i = choose|i: int| 0 <= i < s.held_metas.len() && s.held_metas[i] == m;
                    assert(t.held_metas[i] == m);
                }
                if m == code && !s.held_metas.contains(code) {
                    assert(t.held_metas[s.held_metas.len() as int] == code);
                }
            }
            assert forall|k: u16| #[trigger] o2.contains(k) && t.meta_codes.contains(k) implies t.emitted_meta == Some(k) by {
                if !s.meta_held() {
                    assert(s.held_metas.contains(k));
                    assert(s.held_metas[0] == s.held_metas[0]);
                }
            }
        } else if ev.value == 0 {
            let held = s.held_metas.filter(not_code(code));
            assert forall|x: u16| #[trigger] held.contains(x) <==> (s.held_metas.contains(x) && x != code) by {
                lemma_remove_code_contains(s.held_metas, code, x);
            }
        }
    } else if s.remapped.contains(code) {
    } else if code == s.panic && ev.value == 1 && s.all_metas_held() {
    } else {
    }
}

/// A whole sequence of events a real keyboard can send keeps the fit.
pub proof fn lemma_run_balanced(s: MapperView, p: Set<u16>, o: Set<u16>, evs: Seq<Event>)
    requires
        balanced(s, p, o),
        input_ok_seq(p, evs),
    ensures
        balanced(run(s, evs).0, replay(p, evs), replay(o, run(s, evs).1)),
    decreases evs.len(),
{
    if evs.len() > 0 {
        let (s1, o1) = step(s, evs[0]);
        lemma_step_balanced(s, p, o, evs[0]);
        lemma_run_balanced(s1, press(p, evs[0]), replay(o, o1), evs.drop_first());
        lemma_replay_concat(o, o1, run(s1, evs.drop_first()).1);
    }
}

/// When no key is physically held, no key is held on the virtual keyboard
/// either, and the mapper is idle.
pub proof fn lemma_nothing_held_releases_everything(s: MapperView, p: Set<u16>, o: Set<u16>)
    requires
        balanced(s, p, o),
        p == Set::<u16>::empty(),
    ensures
        o == Set::<u16>::empty(),
        idle(s),
        s.emitted_meta is None,
{
    assert forall|k: u16| !o.contains(k) by {
        if o.contains(k) && s.meta_codes.contains(k) {
            assert(s.held_metas.contains(k));
        }
    }
    assert(o =~= Set::<u16>::empty());
    if s.held_metas.len() > 0 {
        assert(s.held_metas.contains(s.held_metas[0]));
    }
}

/// Every key the mapper presses on the virtual keyboard gets its release: from a
/// fresh mapper, a sequence of events a real keyboard can send that ends with
/// every key up leaves every key up on the virtual keyboard too, a forwarded
/// Command press included.
pub proof fn lemma_balanced_input_releases_everything(evs: Seq<Event>)
    requires
        input_ok_seq(Set::empty(), evs),
        replay(Set::empty(), evs) == Set::<u16>::empty(),
    ensures
        replay(Set::empty(), run(MapperView::initial(), evs).1) == Set::<u16>::empty(),
        idle(run(MapperView::initial(), evs).0),
{
    lemma_initial_balanced();
    lemma_run_balanced(MapperView::initial(), Set::empty(), Set::empty(), evs);
    lemma_nothing_held_releases_everything(
        run(MapperView::initial(), evs).0,
        replay(Set::empty(), evs),
        replay(Set::empty(), run(MapperView::initial(), evs).1),
    );
}

/// The held-key list mirrors the Command keys physically held, each once: from
/// a fresh mapper, after any sequence of events a real keyboard can send.
pub proof fn lemma_held_list_mirrors_commands(evs: Seq<Event>, m: u16)
    requires
        input_ok_seq(Set::empty(), evs),
    ensures
        run(MapperView::initial(), evs).0.held_metas.no_duplicates(),
        run(MapperView::initial(), evs).0.held_metas.contains(m) <==> (MapperView::initial().meta_codes.contains(m)
            && replay(Set::empty(), evs).contains(m)),
{
    lemma_initial_balanced();
    lemma_run_balanced(MapperView::initial(), Set::empty(), Set::empty(), evs);
    lemma_run_keeps_rules(MapperView::initial(), evs);
}

/// A sequence of events never changes the rules.
pub proof fn lemma_run_keeps_rules(s: MapperView, evs: Seq<Event>)
    ensures
        run(s, evs).0.meta_codes == s.meta_codes,
        run(s, evs).0.remapped == s.remapped,
        run(s, evs).0.output_mod == s.output_mod,
        run(s, evs).0.panic == s.panic,
    decreases evs.len(),
{
    if evs.len() > 0 {
        lemma_run_keeps_rules(step(s, evs[0]).0, evs.drop_first());
    }
}

/// A forwarded Command press is released when that key is released: after the
/// release no Command key that is no longer held stays down on the virtual keyboard.
pub proof fn lemma_forwarded_command_released(s: MapperView, p: Set<u16>, o: Set<u16>, m: u16)
    requires
        balanced(s, p, o),
        s.meta_codes.contains(m),
        p.contains(m),
    ensures
        !replay(o, step(s, spec_key_ev(m, 0)).1).contains(m),
        s.emitted_meta == Some(m) ==> step(s, spec_key_ev(m, 0)).1 == seq![spec_key_ev(m, 0)],
{
    let ev = spec_key_ev(m, 0);
    lemma_step_balanced(s, p, o, ev);
    let (t, out) = step(s, ev);
    if replay(o, out).contains(m) {
        assert(t.emitted_meta == Some(m));
        assert(t.held_metas.contains(m));
        assert(!press(p, ev).contains(m));
    }
}

/// When Cmd+C (or Cmd+V) is turned into Ctrl+C, no Command key is down on the
/// virtual keyboard right after: the application sees Ctrl+C alone.
pub proof fn lemma_ctrl_combo_without_super(s: MapperView, p: Set<u16>, o: Set<u16>, c: u16)
    requires
        balanced(s, p, o),
        s.remapped.contains(c),
        s.meta_held(),
        !p.contains(c),
    ensures
        ({
            let o2 = replay(o, step(s, spec_key_ev(c, 1)).1);
            &&& o2.contains(s.output_mod)
            &&& o2.contains(c)
            &&& forall|m: u16| s.meta_codes.contains(m) ==> !#[trigger] o2.contains(m)
        }),
{
    let ev = spec_key_ev(c, 1);
    lemma_step_balanced(s, p, o, ev);
    assert(!s.meta_codes.contains(c));
    let (t, out) = step(s, ev);
    lemma_replay_short(o, out);
}

/// Every key the mapper emits is declared by the virtual keyboard: when the
/// event comes from one of the grabbed devices and the mapper runs the rules of
/// `config`, each emitted code is in the virtual keyboard's key set.
pub proof fn lemma_emitted_codes_declared(s: MapperView, ev: Event, device_keys: Seq<Vec<u16>>, d: int)
    requires
        s.wf(),
        s.meta_codes == MapperView::initial().meta_codes,
        s.remapped == MapperView::initial().remapped,
        s.output_mod == MapperView::initial().output_mod,
        0 <= d < device_keys.len(),
        device_keys[d]@.contains(ev.code),
    ensures
        forall|i: int| 0 <= i < step(s, ev).1.len() ==> declared(device_keys, #[trigger] step(s, ev).1[i].code),
{
    let out = step(s, ev).1;
    assert forall|i: int| 0 <= i < out.len() implies declared(device_keys, #[trigger] out[i].code) by {
        let k = out[i].code;
        if k != ev.code {
            if s.emitted_meta is Some {
                assert(s.held_metas.contains(s.emitted_meta->0));
            }
            if s.active_meta is Some {
                assert(s.held_metas.contains(s.active_meta->0));
            }
            assert(s.meta_codes.contains(k) || k == s.output_mod);
        } else {
            assert(device_keys[d]@.contains(k));
        }
    }
}

// ---- each kind of key, from any state ----

/// With a Command key held, every press of a remapped key, however often it
/// comes in one hold and whatever came before it, emits Ctrl down immediately
/// followed by the key down, after releasing a forwarded Command key if there
/// is one; afterwards no Command key counts as forwarded and the key is being
/// translated.
pub proof fn lemma_remapped_press_is_ctrl_combo(s: MapperView, c: u16)
    requires
        s.wf(),
        s.meta_held(),
        s.remapped.contains(c),
    ensures
        step(s, spec_key_ev(c, 1)).1 == match s.emitted_meta {
            Some(m) => seq![spec_key_ev(m, 0), spec_key_ev(s.output_mod, 1), spec_key_ev(c, 1)],
            None => seq![spec_key_ev(s.output_mod, 1), spec_key_ev(c, 1)],
        },
        step(s, spec_key_ev(c, 1)).0.emitted_meta is None,
        step(s, spec_key_ev(c, 1)).0.translating == Some(c),
        step(s, spec_key_ev(c, 1)).0.held_metas == s.held_metas,
{
    assert(!s.meta_codes.contains(c));
    let out = step(s, spec_key_ev(c, 1)).1;
    match s.emitted_meta {
        Some(m) => {
            assert(out =~= seq![spec_key_ev(m, 0), spec_key_ev(s.output_mod, 1), spec_key_ev(c, 1)]);
        },
        None => {
            assert(out =~= seq![spec_key_ev(s.output_mod, 1), spec_key_ev(c, 1)]);
        },
    }
}

/// With a Command key held, every release of a remapped key emits the key up
/// then Ctrl up, and ends the translation.
pub proof fn lemma_remapped_release_closes_ctrl(s: MapperView, c: u16)
    requires
        s.wf(),
        s.meta_held(),
        s.remapped.contains(c),
    ensures
        step(s, spec_key_ev(c, 0)).1 == seq![spec_key_ev(c, 0), spec_key_ev(s.output_mod, 0)],
        step(s, spec_key_ev(c, 0)).0.translating is None,
{
    assert(!s.meta_codes.contains(c));
}

/// Any key other than a Command key or a remapped key, unless it completes the
/// escape hatch, is passed on as it came: its event is the last one emitted,
/// and the only event that may come before it is the press of a held Command
/// key. The Command keys held and the key being translated do not change.
pub proof fn lemma_other_key_passes_through(s: MapperView, code: u16, value: i32)
    requires
        s.wf(),
        !s.meta_codes.contains(code),
        !s.remapped.contains(code),
        !(code == s.panic && value == 1 && s.all_metas_held()),
    ensures
        ({
            let (t, out) = step(s, spec_key_ev(code, value));
            &&& out.len() >= 1
            &&& out.last() == spec_key_ev(code, value)
            &&& (out.len() == 1 || (out.len() == 2 && (exists|m: u16| #[trigger] s.held_metas.contains(m) && out[0] == spec_key_ev(m, 1))))
            &&& out.len() <= 2
            &&& t.held_metas == s.held_metas
            &&& t.translating == s.translating
            &&& t.quit == s.quit
        }),
{
    let (t, out) = step(s, spec_key_ev(code, value));
    if out.len() == 2 {
        assert(s.held_metas.contains(s.active_meta->0));
    }
}

/// A Super combo: while a Command key is held and none has been forwarded yet,
/// whatever the hold did before (a copy or a paste included), any event of a
/// key other than a Command key or a remapped key that does not complete the
/// escape hatch first forwards a held Command key's press, then passes on, and
/// that Command key counts as forwarded from then on.
pub proof fn lemma_super_combo_flushes_command(s: MapperView, code: u16, value: i32)
    requires
        s.wf(),
        s.meta_held(),
        s.emitted_meta is None,
        !s.meta_codes.contains(code),
        !s.remapped.contains(code),
        !(code == s.panic && value == 1 && s.all_metas_held()),
    ensures
        ({
            let (t, out) = step(s, spec_key_ev(code, value));
            &&& t.emitted_meta is Some
            &&& s.held_metas.contains(t.emitted_meta->0)
            &&& out == seq![spec_key_ev(t.emitted_meta->0, 1), spec_key_ev(code, value)]
        }),
{
    assert(s.held_metas.contains(s.active_meta->0));
}

/// With a Command key already forwarded, any event of a key other than a
/// Command key or a remapped key that does not complete the escape hatch is
/// passed on alone.
pub proof fn lemma_super_combo_continues(s: MapperView, code: u16, value: i32)
    requires
        s.wf(),
        s.emitted_meta is Some,
        !s.meta_codes.contains(code),
        !s.remapped.contains(code),
        !(code == s.panic && value == 1 && s.all_metas_held()),
    ensures
        step(s, spec_key_ev(code, value)).1 == seq![spec_key_ev(code, value)],
        step(s, spec_key_ev(code, value)).0 == s,
{
}

/// Only the escape hatch quits: the quit flag becomes set only on a press of
/// the panic key while every Command key is held.
pub proof fn lemma_quit_only_by_panic_combo(s: MapperView, ev: Event)
    ensures
        step(s, ev).0.quit ==> s.quit || (
            ev.kind == spec_event_type_code(EventKind::Key)
            && ev.code == s.panic
            && ev.value == 1
            && s.all_metas_held()),
{
}

} // verus!
