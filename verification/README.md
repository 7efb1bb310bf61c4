# Cosmic Scribe

System speech input for Wayland desktops: press a shortcut or click the tray, speak, and the
transcript is typed into the focused field (or left on the clipboard).

## Layout

- `src/` — the library, verified with Verus. It holds the decisions and data of the program:
  the dictation state machine and the daemon's control state (`state`, `app`), credential and
  settings values and their at-rest encryption (`keyring`, `crypto`), the sign-in session
  rules (`xai_oauth`), the speech upload payload (`stt`, `audio`, `audio_validation`),
  recordings, their files and their timestamps (`recording`, `paths`, `time`), install/lock rules (`lifecycle`), the
  local web API (`api`, `web`, `models`), the tray (`tray`, `tray_theme`), opt-in usage
  numbers (`analytics`), and the texts and labels of the interface.
  Reading JSON request bodies and service replies (`json`) goes through `serde_json`; calls
  into outside crates (AES-GCM, HKDF, PNG, WAV, JSON, URL and date parsing) sit behind small
  trusted wrappers whose contracts say what the crates document.
- `app/` — the program around it: command line, files, processes, sockets, HTTP, D-Bus tray.
- `tests/` — tests of the library.
