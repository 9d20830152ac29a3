//! Input events as plain values: an event type, a code and a value, as the
//! Linux input layer reports them.

use vstd::prelude::*;

verus! {

/// The event types that the remapper reads or writes.
#[derive(Clone, Copy, Debug, PartialEq, Eq, Structural)]
pub enum EventKind {
    /// `EV_SYN`: the end of a batch of events.
    Synchronization,
    /// `EV_KEY`: a key press, release or autorepeat.
    Key,
}

/// The numeric event type of each kind, as evdev's `EventType` defines it.
pub open spec fn spec_event_type_code(kind: EventKind) -> u16 {
    match kind {
        EventKind::Synchronization => 0,
        EventKind::Key => 1,
    }
}

/// Reads the numeric code of an event type from evdev's `EventType` constants
/// (`EventType::SYNCHRONIZATION`, `EventType::KEY`); the contract claims the
/// values that evdev defines for them.
#[verifier::external_body]
pub(crate) fn event_type_code(kind: EventKind) -> (t: u16)
    ensures
        t == spec_event_type_code(kind),
{
    match kind {
        EventKind::Synchronization => evdev::EventType::SYNCHRONIZATION,
        EventKind::Key => evdev::EventType::KEY,
    }.0
}

/// One input event: its type, its code and its value (for a key event:
/// 0 released, 1 pressed, 2 autorepeat).
#[derive(Clone, Copy, Debug, PartialEq, Eq, Structural)]
pub struct Event {
    pub kind: u16,
    pub code: u16,
    pub value: i32,
}

/// The key event with the given code and value.
pub open spec fn spec_key_ev(code: u16, value: i32) -> Event {
    Event { kind: spec_event_type_code(EventKind::Key), code, value }
}

/// The synchronization event that closes a batch.
pub open spec fn spec_syn() -> Event {
    Event { kind: spec_event_type_code(EventKind::Synchronization), code: 0, value: 0 }
}

/// Builds a key event.
pub fn key_ev(code: u16, value: i32) -> (ev: Event)
    ensures
        ev == spec_key_ev(code, value),
{
    Event { kind: event_type_code(EventKind::Key), code, value }
}

/// Builds the synchronization event.
pub fn syn() -> (ev: Event)
    ensures
        ev == spec_syn(),
{
    Event { kind: event_type_code(EventKind::Synchronization), code: 0, value: 0 }
}

/// Whether an event is a key event.
pub fn is_key_event(ev: &Event) -> (b: bool)
    ensures
        b == (ev.kind == spec_event_type_code(EventKind::Key)),
{
    ev.kind == event_type_code(EventKind::Key)
}

} // verus!
