# oxide_browser

The verified core of the Oxide browser host: the rules, parsers and state
machines behind a desktop shell that runs guest WebAssembly apps. Every
function under `src/` carries a Verus contract and is proved against it;
calls into outside crates (`url`, `percent-encoding`, `serde_json`, `sha2`,
`base64`, `chrono`, `image`) go through small trusted wrappers whose
contracts say what those crates document.

## Layout

- `src/` — the library, verified with Verus.
  - `url`, `navigation`, `history`, `bookmarks`: URL parsing and joining,
    the back/forward stack, and the record encodings of the persistent
    history and bookmark stores.
  - `loader`, `shell`, `url_bar`, `guest_api`, `sandbox`: where a module
    comes from and what a navigation does, tab titles and page states, the
    URL bar editor, the rules behind the guest host functions, and the
    sandbox policy.
  - `events`, `timers`, `widgets`, `storage`, `handles`: guest event
    queues and listeners, timers and animation frames, immediate-mode
    widget state, session storage, and handle allocation.
  - `fetch`, `download`, `file_picker`, `midi`, `rtc_queues`,
    `gpu_resources`: the host-side state of streaming fetches, downloads,
    picked files, MIDI ports, WebRTC peers and GPU resources.
  - `audio_format`, `subtitle`, `video`, `playback`, `codecs`: media
    sniffing, SRT/WebVTT parsing, HLS playlists and decoder timing, the
    playback clock, and hashing, base64 and image decoding.
  - `forge`, `forge_registry`: the app generator's SSE framing, code
    extraction, prompts, session lifecycle and persisted metadata, and the
    creations known by id.
  - `json`: JSON documents read one level at a time and flat objects
    written out, with key lookup in verified code.
  - `text`, `clock`: shared text routines and the wall clock.
- `tests/` — tests of the library on concrete values.
- `app/` — the parts that touch the disk: the sled-backed stores, download
  file naming in the download folder, the file picker's directory reads,
  and Forge's skill documents and creation metadata files.
