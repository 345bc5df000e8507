# android_fs

The verified core of a Tauri plugin for the Android file system.

- `src/` — the library, verified with Verus: URI and relative-path handling,
  percent-encoding and decoding, the directory and access-mode models, the
  choice of picker, the thumbnail protocol's request and response handling,
  the framing of text lines, a bounded map, the writable-stream life cycle,
  and the API-level policies. Each public function carries a contract, and
  the `law_*` proof functions state what holds across functions.
- `tests/` — tests on concrete values, one or more for each law.
- `app/` — the Tauri side: plugin setup, calls to the Kotlin side, IPC
  commands, the URI-scheme protocol, scope checks and serialization.
