# gamebient_input

The Gamebient control canon and the ColecoVision GX host protocol, as a
verified library with a thin Bevy layer around it.

- `src/` is the verified library:
  - `buttons.rs`: the protocol button bitmask and the per-frame edge logic
    (press, hold, release, sub-frame latch), with its laws.
  - `input.rs`: the canon keyboard and gamepad bindings, the digital part of
    the per-frame input, the virtual source's latch and the frame step that
    unions every source.
  - `host.rs`: host protocol messages, JSON string escaping (with a proof that
    a JSON reader gets the string back), the `gx:event` / `gx:hello`
    encodings and the decoding of queued host commands.
  - `json.rs`: JSON values and a reader for them, with the proof that the
    protocol messages read back as the documented objects.
  - `canvas.rs`: the pinned / fit canvas policy and the window it configures.
- `app/` is the Bevy side: resources, messages, systems and plugins, the
  analog (floating point) part of `GameInput`, and the wasm glue.
- `tests/` runs the library on concrete values.
