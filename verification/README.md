# Lattice — verified core

Lattice is a geometric pulse instrument for the browser (WebAssembly, WebGPU,
WebAudio). This crate holds the parts of it whose behaviour can be stated and
proved with Verus, and a thin browser shell around them.

- `src/` — the verified library:
  - `music.rs`: scale tables in cents, the per-voice polymeter Euclidean gate,
    motif and accent tables, phrase root shifts, the scale-position walk and
    per-voice generator seeding.
  - `input.rs`: the multitouch pointer tracker (abstract state, transitions,
    laws) and the press/drag/release decision for single-pointer gestures.
  - `events/`: key tables (root note, mode) and the carve-drop helpers.
  - `audio.rs`: the polyphony pool and the xorshift noise of the reverb IR.
  - `offline.rs`: the 32-bit-float stereo WAV encoder.
  - `perf.rs`: the bounded gesture outbox of networked performance.
  - `render.rs`, `dom.rs`, `control.rs`: surface sizes, canvas backing size
    and control-panel clamping.
- `tests/` — tests of the library on concrete values.
- `app/` — the browser shell: DOM and WebAudio wiring, the float synthesis and
  scheduling engine, pointer geometry and the frame loop. The WebGPU renderer
  (device setup, render targets, post-processing and the WGSL shaders) and
  the flare/carve chord emitters are not part of this crate; the frame loop
  runs the audio and input side only, and the networked-performance display
  side applies swirl and ripples but not chords.
