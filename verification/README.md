# tuisage

A terminal UI for building command lines interactively from
[usage](https://usage.jdx.dev/) specs: browse the command tree, toggle flags,
fill in arguments, watch the command line assemble itself, and run it in an
embedded terminal, or print it to standard output and leave (`p` on the
preview, or a click on the focused preview).

## Layout

- `src/` — the library, verified with Verus: the spec model and loading it
  from usage text (parsed by usage-lib), flag and
  argument state per command path, command assembly (display string and
  process arguments), fuzzy filtering and match scores, the command tree,
  the list/choice/theme-picker panels and their key and mouse handling,
  list scrolling, the help bar's key hints, focus cycling, and the application
  state machine that ties them together.
  Every public function states its effect in `requires`/`ensures`; the
  properties that span several calls are proved as `lemma_*` proof functions.
- `app/` — the program around the library: argument parsing, reading the
  usage spec (a file, or a command's output), the terminal event loop,
  drawing with ratatui,
  running completion commands and the built command in a pseudo-terminal.
- `tests/` — tests of the library on concrete values.
