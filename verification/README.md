# hyprcube

A settings manager for the Hyprland desktop, written as a verified library
and a thin program around it.

- `src/` is the library, checked by Verus: the structure-preserving
  `hyprland.conf` parser and its editing operations, the TOML model behind
  the HyprDeck and HyprSaver editors, the panels' fields and edits, colors,
  live-preview undo, monitor layout and snapping, the state of the form
  rows and of the widgets (buttons, toggles, dropdowns, text inputs, the
  color picker's hex field and drags) once the renderer has routed an
  event, Hyprpaper's files, configuration history (revision names,
  snapshots, the git commands to run and how their output reads), the
  command line and the About summary.
  Every public function states what it returns; the `*_laws.rs` modules and
  the `law_*` proof functions state what holds across operations (a value
  reads back as written, rendering and parsing agree, a revert undoes the
  previews in reverse, snapshot names are safe git refs, and so on).
- `tests/` runs the library on concrete inputs.
- `app/` is the program: it reads and writes the files, runs `git`,
  `hyprctl` and the companion tools, talks to Hyprland's socket, and turns
  TOML and JSON into the library's types.
