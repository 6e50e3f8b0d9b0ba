# knob

A tiny sound mixer that turns a keyboard knob's media keys into volume
changes on one application's audio session.

- `src/` is the verified library: the settings and their normalization, the
  keyboard hook's routing of keys, the bookkeeping around audio sessions and
  media sessions, UTF-16 conversion, Windows path names, the status and
  tooltip texts, the window's layout and the tray's values. Every function
  there carries a contract that Verus proves, and the laws the program relies
  on (round trips, idempotence, the fallback to the system volume) are stated
  as proof functions next to the code they are about.
- `app/` is the Windows program around it: the window, the tray icon, the
  low-level keyboard hook, Core Audio, the registry and `config.toml`.
- `tests/` runs the library on concrete values.
