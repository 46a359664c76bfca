# keytip

A shortcut overlay for the niri Wayland compositor. Launched from a niri
binding, it finds the focused window — looking through terminal emulators and
multiplexers into the program running inside them — looks that program's
shortcuts up in the built-in defaults merged with the user's configuration, and
shows them grouped, searchable and with favourites in an egui overlay. On an
empty workspace it shows niri's own bindings, parsed from its configuration.

Layout:

- `src/` — the library, verified with Verus: the shortcut store and
  favourites (`store`), terminal look-through (`term`), window choice
  (`niri`), the niri configuration reader (`importer_niri`) and its walk
  through imported files (`includes`), grouping and
  filtering (`overlay`), command-line and single-instance decisions (`cli`),
  themes (`theme`), font checks (`fonts`) and text helpers (`text`).
- `tests/` — tests of the library.
- `app/` — the program: process and file I/O, `niri msg` and tmux calls,
  JSON, the socket, and the egui window.
