# mipush_zygisk

The verified core of a Zygisk module that spoofs Xiaomi device properties for
selected app processes, so that MiPush works on other devices.

- `src/` (Verus): package and process name rules (`names`), the device
  configuration parser and property merging (`config`, `defaults`), the
  companion's rule matching over the app configuration (`server`), the
  companion wire protocol (`protocol`), the values the replaced
  `SystemProperties` getters answer (`hook`), and the decisions taken before a
  process specializes (`specialize`). `text` holds the shared character-level
  model: Unicode trimming, lines, and searching.
- `app/`: the module and companion entry points, file and socket I/O, and the
  JNI hooks, calling into the library.
- `tests/`: the library's tests.

Observing which property keys apps ask for is off: `app/` has no
configuration switch for it, so the library's `KeyObserver` is always called
with observation disabled.
