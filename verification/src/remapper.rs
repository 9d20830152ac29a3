//! The remap state machine: pure logic, no I/O.
//!
//! `Mapper::process` takes one input event and returns the events to emit (an
//! empty result means "swallow this one", e.g. a buffered Command press).

use vstd::prelude::*;

use crate::config::{
    codes_of, contains_code, key_code, spec_codes, spec_key_code, META_KEYS, OUTPUT_MOD, PANIC_KEY, REMAPPED,
};
use crate::laws::{lemma_initial_wf, lemma_step_preserves_wf};
use crate::event::{is_key_event, key_ev, spec_event_type_code, spec_key_ev, Event, EventKind};

verus! {

/// Tracks physical modifier state and rewrites `Cmd`+key combos into `Ctrl`+key.
///
/// Command presses are buffered rather than emitted at once, so that it can be
/// decided afterwards whether a Command press became a Ctrl combo (copy/paste),
/// a lone Super tap (opens GNOME Activities), or a real Super combo (Super+D).
pub struct Mapper {
    meta_codes: Vec<u16>,
    remapped: Vec<u16>,
    output_mod: u16,
    panic: u16,
    /// Command codes currently held down, in press order.
    held_metas: Vec<u16>,
    /// The Command code that has been forwarded as pressed (needs a matching release).
    emitted_meta: Option<u16>,
    /// The most recently pressed Command code still held: what is forwarded on a flush.
    active_meta: Option<u16>,
    /// Whether the current Command hold has done something yet.
    meta_used: bool,
    /// The key currently being translated to `output_mod + <key>`.
    translating: Option<u16>,
    /// Set when the emergency ungrab combo is pressed.
    pub quit: bool,
}

/// The abstract state of a `Mapper`.
#[verifier::ext_equal]
pub struct MapperView {
    pub meta_codes: Seq<u16>,
    pub remapped: Seq<u16>,
    pub output_mod: u16,
    pub panic: u16,
    pub held_metas: Seq<u16>,
    pub emitted_meta: Option<u16>,
    pub active_meta: Option<u16>,
    pub meta_used: bool,
    pub translating: Option<u16>,
    pub quit: bool,
}

impl View for Mapper {
    type V = MapperView;

    closed spec fn view(&self) -> MapperView {
        MapperView {
            meta_codes: self.meta_codes@,
            remapped: self.remapped@,
            output_mod: self.output_mod,
            panic: self.panic,
            held_metas: self.held_metas@,
            emitted_meta: self.emitted_meta,
            active_meta: self.active_meta,
            meta_used: self.meta_used,
            translating: self.translating,
            quit: self.quit,
        }
    }
}

/// The predicate "is not `code`".
pub open spec fn not_code(code: u16) -> spec_fn(u16) -> bool {
    |m: u16| m != code
}

impl MapperView {
    /// Some Command key is held.
    pub open spec fn meta_held(self) -> bool {
        self.held_metas.len() > 0
    }

    /// Every Command key is held.
    pub open spec fn all_metas_held(self) -> bool {
        forall|i: int| 0 <= i < self.meta_codes.len() ==> self.held_metas.contains(#[trigger] self.meta_codes[i])
    }

    /// The state a fresh mapper starts in.
    pub open spec fn initial() -> MapperView {
        MapperView {
            meta_codes: spec_codes(META_KEYS@),
            remapped: spec_codes(REMAPPED@),
            output_mod: spec_key_code(OUTPUT_MOD),
            panic: spec_key_code(PANIC_KEY),
            held_metas: Seq::empty(),
            emitted_meta: None,
            active_meta: None,
            meta_used: false,
            translating: None,
            quit: false,
        }
    }

    /// What every state reached from `initial` satisfies.
    pub open spec fn wf(self) -> bool {
        &&& self.meta_codes.len() > 0
        &&& forall|x: u16| #[trigger] self.held_metas.contains(x) ==> self.meta_codes.contains(x)
        &&& self.held_metas.no_duplicates()
        &&& (self.held_metas.len() == 0) == (self.active_meta is None)
        &&& (self.active_meta matches Some(a) ==> self.held_metas.contains(a))
        &&& (self.emitted_meta matches Some(e) ==> self.held_metas.contains(e))
        &&& (self.translating matches Some(t) ==> self.remapped.contains(t))
        &&& forall|x: u16| #[trigger] self.meta_codes.contains(x) ==> !self.remapped.contains(x) && x != self.panic
        &&& !self.remapped.contains(self.panic)
        &&& !self.meta_codes.contains(self.output_mod)
        &&& !self.remapped.contains(self.output_mod)
    }
}

/// A Command key goes down: it is buffered, nothing is emitted.
pub open spec fn press_meta(s: MapperView, code: u16) -> MapperView {
    let was_held = s.meta_held();
    MapperView {
        held_metas: if s.held_metas.contains(code) { s.held_metas } else { s.held_metas.push(code) },
        active_meta: Some(code),
        meta_used: if was_held { s.meta_used } else { false },
        emitted_meta: if was_held { s.emitted_meta } else { None },
        ..s
    }
}

/// A Command key goes up: a forwarded Command is released; a Command that was
/// pressed and released alone becomes a Super tap. When it was the most recently
/// pressed Command key and another one is still held, the most recently pressed
/// of those that are still held takes its place.
pub open spec fn release_meta(s: MapperView, code: u16) -> (MapperView, Seq<Event>) {
    let held = s.held_metas.filter(not_code(code));
    let out = if s.emitted_meta == Some(code) {
        seq![spec_key_ev(code, 0)]
    } else if !s.meta_used && held.len() == 0 {
        seq![spec_key_ev(code, 1), spec_key_ev(code, 0)]
    } else {
        Seq::empty()
    };
    (
        MapperView {
            held_metas: held,
            emitted_meta: if s.emitted_meta == Some(code) { None } else { s.emitted_meta },
            active_meta: if held.len() == 0 {
                None
            } else if s.active_meta == Some(code) {
                Some(held.last())
            } else {
                s.active_meta
            },
            ..s
        },
        out,
    )
}

/// A key event on a Command key; autorepeat is ignored.
pub open spec fn meta_step(s: MapperView, code: u16, value: i32) -> (MapperView, Seq<Event>) {
    if value == 1 {
        (press_meta(s, code), Seq::empty())
    } else if value == 0 {
        release_meta(s, code)
    } else {
        (s, Seq::empty())
    }
}

/// A key event on a remapped key (C, V): the translation into `Ctrl`+key.
pub open spec fn remapped_step(s: MapperView, code: u16, value: i32) -> (MapperView, Seq<Event>) {
    if s.meta_held() {
        if value == 1 {
            let release = match s.emitted_meta {
                Some(m) => seq![spec_key_ev(m, 0)],
                None => Seq::empty(),
            };
            (
                MapperView { meta_used: true, emitted_meta: None, translating: Some(code), ..s },
                release + seq![spec_key_ev(s.output_mod, 1), spec_key_ev(code, 1)],
            )
        } else if value == 2 {
            (s, seq![spec_key_ev(code, 2)])
        } else {
            (
                MapperView { translating: None, ..s },
                seq![spec_key_ev(code, 0), spec_key_ev(s.output_mod, 0)],
            )
        }
    } else if s.translating == Some(code) && value == 0 {
        (
            MapperView { translating: None, ..s },
            seq![spec_key_ev(code, 0), spec_key_ev(s.output_mod, 0)],
        )
    } else {
        (s, seq![spec_key_ev(code, value)])
    }
}

/// Any other key: a buffered Command is flushed first (a real Super combo),
/// then the key passes through.
pub open spec fn other_step(s: MapperView, code: u16, value: i32) -> (MapperView, Seq<Event>) {
    if s.meta_held() && s.emitted_meta is None && s.active_meta is Some {
        let m = s.active_meta->0;
        (
            MapperView { emitted_meta: Some(m), meta_used: true, ..s },
            seq![spec_key_ev(m, 1), spec_key_ev(code, value)],
        )
    } else {
        (s, seq![spec_key_ev(code, value)])
    }
}

/// One step of the state machine: the next state and the events to emit.
pub open spec fn step(s: MapperView, ev: Event) -> (MapperView, Seq<Event>) {
    if ev.kind != spec_event_type_code(EventKind::Key) {
        (s, Seq::empty())
    } else if s.meta_codes.contains(ev.code) {
        meta_step(s, ev.code, ev.value)
    } else if s.remapped.contains(ev.code) {
        remapped_step(s, ev.code, ev.value)
    } else if ev.code == s.panic && ev.value == 1 && s.all_metas_held() {
        (MapperView { quit: true, ..s }, Seq::empty())
    } else {
        other_step(s, ev.code, ev.value)
    }
}

/// Removes every occurrence of `code` from `v`, keeping the order of the rest.
fn remove_code(v: &mut Vec<u16>, code: u16)
    ensures
        final(v)@ == old(v)@.filter(not_code(code)),
{
    let mut kept: Vec<u16> = Vec::new();
    let mut i: usize = 0;
    while i < v.len()
        invariant
            i <= v@.len(),
            kept@ == v@.take(i as int).filter(not_code(code)),
        decreases v@.len() - i,
    {
        proof {
            reveal(Seq::filter);
            assert(v@.take(i + 1).drop_last() =~= v@.take(i as int));
        }
        if v[i] != code {
            kept.push(v[i]);
        }
        i = i + 1;
    }
    assert(v@.take(v@.len() as int) =~= v@);
    *v = kept;
}

impl Mapper {
    /// A mapper in its initial state, with the rules of `config`.
    pub fn new() -> (m: Self)
        ensures
            m@ == MapperView::initial(),
            m@.wf(),
    {
        proof {
            lemma_initial_wf();
        }
        Mapper {
            meta_codes: codes_of(&META_KEYS),
            remapped: codes_of(&REMAPPED),
            output_mod: key_code(OUTPUT_MOD),
            panic: key_code(PANIC_KEY),
            held_metas: Vec::new(),
            emitted_meta: None,
            active_meta: None,
            meta_used: false,
            translating: None,
            quit: false,
        }
    }

    /// Whether the emergency ungrab combo has been pressed (the `quit` flag).
    pub fn quit_requested(&self) -> (b: bool)
        ensures
            b == self@.quit,
    {
        self.quit
    }

    /// Whether `code` is a Command key.
    pub fn is_meta(&self, code: u16) -> (b: bool)
        ensures
            b == self@.meta_codes.contains(code),
    {
        contains_code(&self.meta_codes, code)
    }

    /// Whether `code` is a remapped key.
    pub fn is_remapped(&self, code: u16) -> (b: bool)
        ensures
            b == self@.remapped.contains(code),
    {
        contains_code(&self.remapped, code)
    }

    /// Whether some Command key is held.
    pub fn meta_held(&self) -> (b: bool)
        ensures
            b == self@.meta_held(),
    {
        self.held_metas.len() > 0
    }

    /// Whether every Command key is held.
    pub fn all_metas_held(&self) -> (b: bool)
        ensures
            b == self@.all_metas_held(),
    {
        let mut i: usize = 0;
        while i < self.meta_codes.len()
            invariant
                i <= self@.meta_codes.len(),
                forall|j: int| 0 <= j < i ==> self@.held_metas.contains(#[trigger] self@.meta_codes[j]),
            decreases self@.meta_codes.len() - i,
        {
            if !contains_code(&self.held_metas, self.meta_codes[i]) {
                return false;
            }
            i = i + 1;
        }
        true
    }

    /// Feeds one input event; returns the events to emit (may be empty).
    pub fn process(&mut self, ev: &Event) -> (out: Vec<Event>)
        ensures
            final(self)@ == step(old(self)@, *ev).0,
            out@ == step(old(self)@, *ev).1,
            old(self)@.wf() ==> final(self)@.wf(),
    {
        let ghost s = self@;
        proof {
            if s.wf() {
                lemma_step_preserves_wf(s, *ev);
            }
        }
        let mut out: Vec<Event> = Vec::new();
        // Only key events are handled; the caller adds its own SYN after each
        // non-empty batch.
        if !is_key_event(ev) {
            return out;
        }
        let code = ev.code;
        let val = ev.value;

        // Command keys: buffered.
        if self.is_meta(code) {
            if val == 1 {
                let was_held = self.meta_held();
                if !contains_code(&self.held_metas, code) {
                    self.held_metas.push(code);
                }
                self.active_meta = Some(code);
                if !was_held {
                    self.meta_used = false;
                    self.emitted_meta = None;
                }
            } else if val == 0 {
                remove_code(&mut self.held_metas, code);
                if self.emitted_meta == Some(code) {
                    // The Command press had been forwarded (a real Super combo): release it.
                    out.push(key_ev(code, 0));
                    self.emitted_meta = None;
                } else if !self.meta_used && !self.meta_held() {
                    // Pressed and released alone: a Super tap (opens Activities).
                    out.push(key_ev(code, 1));
                    out.push(key_ev(code, 0));
                }
                if !self.meta_held() {
                    self.active_meta = None;
                } else if self.active_meta == Some(code) {
                    // Only a key that is still held may be flushed later.
                    self.active_meta = Some(self.held_metas[self.held_metas.len() - 1]);
                }
            }
            assert(self@ =~= step(s, *ev).0);
            assert(out@ =~= step(s, *ev).1);
            return out;
        }

        // Remapped keys (C / V): the translation.
        if self.is_remapped(code) {
            if self.meta_held() {
                if val == 1 {
                    self.meta_used = true;
                    // Release a forwarded Command so the application sees only Ctrl+<key>.
                    if let Some(m) = self.emitted_meta {
                        out.push(key_ev(m, 0));
                        self.emitted_meta = None;
                    }
                    out.push(key_ev(self.output_mod, 1));
                    out.push(key_ev(code, 1));
                    self.translating = Some(code);
                } else if val == 2 {
                    // Autorepeat: the modifier stays down.
                    out.push(key_ev(code, 2));
                } else {
                    out.push(key_ev(code, 0));
                    out.push(key_ev(self.output_mod, 0));
                    self.translating = None;
                }
            } else if self.translating == Some(code) && val == 0 {
                // Command released before the key: finish the Ctrl combo cleanly.
                out.push(key_ev(code, 0));
                out.push(key_ev(self.output_mod, 0));
                self.translating = None;
            } else {
                out.push(key_ev(code, val));
            }
            assert(self@ =~= step(s, *ev).0);
            assert(out@ =~= step(s, *ev).1);
            return out;
        }

        // Emergency ungrab: all Command keys held plus the panic key.
        if code == self.panic && val == 1 && self.all_metas_held() {
            self.quit = true;
            assert(self@ =~= step(s, *ev).0);
            return out;
        }

        // Any other key: if Command is held but not yet forwarded, this is a real
        // Super combo (e.g. Super+D); flush the buffered Command first.
        if self.meta_held() && self.emitted_meta.is_none() {
            if let Some(m) = self.active_meta {
                out.push(key_ev(m, 1));
                self.emitted_meta = Some(m);
                self.meta_used = true;
            }
        }
        out.push(key_ev(code, val));
        assert(self@ =~= step(s, *ev).0);
        assert(out@ =~= step(s, *ev).1);
        out
    }
}

impl Default for Mapper {
    fn default() -> (m: Self)
        ensures
            m@ == MapperView::initial(),
            m@.wf(),
    {
        Self::new()
    }
}

} // verus!
