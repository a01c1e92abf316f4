# llnzy UI logic

The editor and workbench logic of the llnzy terminal and editor, written in
Verus: every function in `src/` carries a contract that the verifier proves.

- `src/` — the verified library: the command palette and its fuzzy filter,
  editor commands and key actions, code folding, comment toggling, soft
  wrapping, indentation, the status line, the Markdown preview parser, the Git
  view's state machine and log filtering, external file changes, the
  settings' background modes and hotkey legend, and the workbench's tab,
  footer and workspace rules. The `law_*` proof functions state properties
  that span several functions.
- `tests/` — tests on concrete values.
- `app/` — the egui front end and background workers: drawing, input,
  threads and file reads, which hand plain values to the library and carry
  out its answers.
