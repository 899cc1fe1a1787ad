# codex_repair

Diagnosis and repair of the bundled plugins of Codex Desktop on Windows, with
the decisions verified by Verus.

- `src/` is the library, verified: path derivation and file names (`paths`),
  the order of names and the choice of versions (`order`, `versions`), the
  Win32 directory records and UTF-16 (`win32`), the extension manifest
  (`manifest`), the diagnosis (`diagnose`), the repair as a request/answer
  machine (`repair`), the window's state (`ui`), plugin processes
  (`processes`), log lines (`log`) and text helpers (`text`).
- `app/` is the program around it: the egui window, file system and process
  table access, the Win32 calls, the clock, and the loop that answers the
  repair's requests.
- `tests/` runs the library on concrete values.
