//! The decisions of the device layer: which devices count as keyboards, which
//! keys the virtual keyboard must declare, and what the per-device loop does
//! with each event. The reading and writing of devices stays with the caller.

use vstd::prelude::*;

use crate::config::{
    codes_of, contains_code, key_code, spec_codes, spec_key_code, KEYBOARD_MARKERS, META_KEYS, OUTPUT_MOD,
    REMAPPED,
};
use crate::event::{spec_syn, syn, Event};
use crate::remapper::{step, Mapper};

verus! {

/// Whether a device that reports the key set `supported` (none when it reports
/// no key events at all) looks like a real keyboard: it must report every key of
/// `KEYBOARD_MARKERS`.
pub open spec fn spec_is_keyboard(supported: Option<Seq<u16>>) -> bool {
    match supported {
        Some(keys) => forall|i: int|
            0 <= i < KEYBOARD_MARKERS@.len() ==> keys.contains(
                #[trigger] spec_codes(KEYBOARD_MARKERS@)[i],
            ),
        None => false,
    }
}

/// A device looks like a real keyboard if it reports all of `KEYBOARD_MARKERS`;
/// this filters out power buttons, lid switches and the like.
pub fn is_keyboard(supported: &Option<Vec<u16>>) -> (b: bool)
    ensures
        b == spec_is_keyboard(match supported {
            Some(keys) => Some(keys@),
            None => None,
        }),
{
    match supported {
        None => false,
        Some(keys) => {
            let markers = codes_of(&KEYBOARD_MARKERS);
            let mut i: usize = 0;
            while i < markers.len()
                invariant
                    i <= markers@.len(),
                    markers@ == spec_codes(KEYBOARD_MARKERS@),
                    supported matches Some(k) && k@ == keys@,
                    forall|j: int| 0 <= j < i ==> keys@.contains(#[trigger] markers@[j]),
                decreases markers@.len() - i,
            {
                if !contains_code(keys, markers[i]) {
                    assert(!keys@.contains(spec_codes(KEYBOARD_MARKERS@)[i as int]));
                    return false;
                }
                i = i + 1;
            }
            true
        },
    }
}

/// The keys the remapper itself may emit: the Command keys, the remapped keys
/// and the output modifier.
pub open spec fn synthesized_key(k: u16) -> bool {
    ||| spec_codes(META_KEYS@).contains(k)
    ||| spec_codes(REMAPPED@).contains(k)
    ||| k == spec_key_code(OUTPUT_MOD)
}

/// Whether the virtual keyboard over the grabbed devices' key sets must declare
/// `k`: some device reports it, or the remapper may emit it on its own.
pub open spec fn declared(device_keys: Seq<Vec<u16>>, k: u16) -> bool {
    (exists|d: int| 0 <= d < device_keys.len() && (#[trigger] device_keys[d])@.contains(k))
        || synthesized_key(k)
}

/// Adds `k` to the duplicate-free list `set` unless it is there already.
fn insert_key(set: &mut Vec<u16>, k: u16)
    requires
        old(set)@.no_duplicates(),
    ensures
        final(set)@.no_duplicates(),
        forall|x: u16| #[trigger] final(set)@.contains(x) <==> (old(set)@.contains(x) || x == k),
{
    if !contains_code(set, k) {
        set.push(k);
        proof {
            assert forall|x: u16| #[trigger] set@.contains(x) <==> (old(set)@.contains(x) || x == k) by {
                if set@.contains(x) {
                    let j = choose|j: int| 0 <= j < set@.len() && set@[j] == x;
                    if j < old(set)@.len() {
                        assert(old(set)@[j] == x);
                    }
                }
                if old(set)@.contains(x) {
                    let j = choose|j: int| 0 <= j < old(set)@.len() && old(set)@[j] == x;
                    assert(set@[j] == x);
                }
                if x == k {
                    assert(set@[set@.len() - 1] == x);
                }
            }
        }
    }
}

/// Adds every element of `keys` to the duplicate-free list `set`.
fn insert_keys(set: &mut Vec<u16>, keys: &Vec<u16>)
    requires
        old(set)@.no_duplicates(),
    ensures
        final(set)@.no_duplicates(),
        forall|x: u16| #[trigger] final(set)@.contains(x) <==> (old(set)@.contains(x) || keys@.contains(x)),
{
    let ghost start = set@;
    let mut i: usize = 0;
    while i < keys.len()
        invariant
            i <= keys@.len(),
            set@.no_duplicates(),
            forall|x: u16| #[trigger] set@.contains(x) <==> (start.contains(x) || exists|j: int|
                0 <= j < i && #[trigger] keys@[j] == x),
        decreases keys@.len() - i,
    {
        let k = keys[i];
        insert_key(set, k);
        proof {
            assert forall|x: u16| #[trigger] set@.contains(x) implies (start.contains(x) || exists|j: int|
                0 <= j < i + 1 && #[trigger] keys@[j] == x) by {
                if x == k {
                    assert(keys@[i as int] == x);
                }
            }
        }
        i = i + 1;
    }
    assert forall|x: u16| keys@.contains(x) implies #[trigger] set@.contains(x) by {
        let j = choose|j: int| 0 <= j < keys@.len() && keys@[j] == x;
        assert(keys@[j] == x);
    }
}

/// The key set of the one virtual keyboard: the union of the key sets of all
/// grabbed devices and of the keys the remapper synthesizes (the virtual device
/// must declare every key it may emit). Each key occurs once.
pub fn virtual_keyboard_keys(device_keys: &Vec<Vec<u16>>) -> (keys: Vec<u16>)
    ensures
        keys@.no_duplicates(),
        forall|k: u16| #[trigger] keys@.contains(k) <==> declared(device_keys@, k),
{
    let mut keys: Vec<u16> = Vec::new();
    let mut d: usize = 0;
    while d < device_keys.len()
        invariant
            d <= device_keys@.len(),
            keys@.no_duplicates(),
            forall|k: u16| #[trigger]
                keys@.contains(k) <==> exists|e: int| 0 <= e < d && (#[trigger] device_keys@[e])@.contains(k),
        decreases device_keys@.len() - d,
    {
        insert_keys(&mut keys, &device_keys[d]);
        proof {
            assert forall|k: u16| #[trigger] keys@.contains(k) implies exists|e: int|
                0 <= e < d + 1 && (#[trigger] device_keys@[e])@.contains(k) by {
                if !device_keys@[d as int]@.contains(k) {
                    let e = choose|e: int| 0 <= e < d && (#[trigger] device_keys@[e])@.contains(k);
                    assert(device_keys@[e]@.contains(k));
                }
            }
            assert forall|k: u16| (exists|e: int| 0 <= e < d + 1 && (#[trigger] device_keys@[e])@.contains(k))
                implies #[trigger] keys@.contains(k) by {
                let e = choose|e: int| 0 <= e < d + 1 && (#[trigger] device_keys@[e])@.contains(k);
                if e < d {
                    assert(device_keys@[e]@.contains(k));
                }
            }
        }
        d = d + 1;
    }
    let metas = codes_of(&META_KEYS);
    insert_keys(&mut keys, &metas);
    let remapped = codes_of(&REMAPPED);
    insert_keys(&mut keys, &remapped);
    insert_key(&mut keys, key_code(OUTPUT_MOD));
    keys
}

/// What the loop of one grabbed device does after feeding an event to its mapper.
pub enum DeviceAction {
    /// The emergency combo was pressed: ungrab the device and exit.
    Quit,
    /// Emit these events on the virtual keyboard (a batch closed by a SYN event).
    Emit(Vec<Event>),
    /// Nothing to emit.
    Nothing,
}

/// Feeds one event from a grabbed device to its mapper and decides what to do:
/// exit when the panic combo has been pressed, else emit the mapper's output
/// followed by a SYN event when there is any.
pub fn handle_event(mapper: &mut Mapper, ev: &Event) -> (action: DeviceAction)
    ensures
        final(mapper)@ == step(old(mapper)@, *ev).0,
        match action {
            DeviceAction::Quit => step(old(mapper)@, *ev).0.quit,
            DeviceAction::Emit(batch) => !step(old(mapper)@, *ev).0.quit
                && step(old(mapper)@, *ev).1.len() > 0
                && batch@ == step(old(mapper)@, *ev).1.push(spec_syn()),
            DeviceAction::Nothing => !step(old(mapper)@, *ev).0.quit
                && step(old(mapper)@, *ev).1.len() == 0,
        },
{
    let mut out = mapper.process(ev);
    if mapper.quit_requested() {
        return DeviceAction::Quit;
    }
    if out.len() > 0 {
        out.push(syn());
        DeviceAction::Emit(out)
    } else {
        DeviceAction::Nothing
    }
}

} // verus!
