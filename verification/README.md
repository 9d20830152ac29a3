# key_remap

A macOS-style Command-to-Ctrl key remapper for Linux (evdev/uinput), as a
verified library plus a thin daemon.

- `src/config.rs` — the remap rules as data, and the key codes read from evdev.
- `src/event.rs` — input events as plain values.
- `src/remapper.rs` — the remap state machine, specified by the spec function `step`.
- `src/device.rs` — keyboard detection, the virtual keyboard's key set, and the
  decision taken for each event of a grabbed keyboard.
- `src/laws.rs` — what holds across events: the invariant, the copy/paste,
  Super and escape-hatch behaviour.
- `app/main.rs` — device discovery, grabbing, threads and uinput output.
