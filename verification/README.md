# rail

The decision logic of an RTL-SDR receiver back end (RAIL), written in
Verus with its behaviour stated in `requires` / `ensures` contracts and
proved.

## Layout

- `src/` — the verified library:
  - `session` — the streaming session: sample-rate fallback, tuning
    offsets, the checks of every tuning and transport command, replies.
  - `replay` — SigMF capture metadata, seek arithmetic, the waterfall
    backfill plan and the replay transport state machine.
  - `scanner` — the sweep's frequency list and step-by-step decisions.
  - `capture` — capture file names and timestamps, the WAV header, the
    one-recording-at-a-time slot, screenshot and temp-file checks.
  - `classifier` — the band table and the mode-confirmation rules.
  - `bookmarks` — bookmark records and the edits made to the file.
  - `frames` — frame cutting, FFT centring, input length checks, rate
    limits.
  - `perf` — emit-interval rings and their summaries.
  - `hardware` — dongle identification, the reader's exit decision.
  - `calendar`, `text`, `clock`, `events`, `error` — support.
- `tests/` — tests of the library.
- `app/` — the Tauri shell: librtlsdr access, file and channel I/O,
  floating-point DSP, and serialisable copies of the library's types.
