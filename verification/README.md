# sand_ui

The user-interface logic of a falling-sand simulation, written in Verus and
proved against its contracts.

- `src/` is the verified library: the console (command arguments, history,
  completion tries built with `trie_rs`, prompt, help text), the particle
  editor's registry and name draft, the category list, neighbour groups,
  key-binding routing, popup states, file dialogs and icon tinting. Each
  module states its laws as public proof functions.
- `app/` holds what reaches the outside world: the history file, captured
  log lines, console messages, floating-point arguments, directory listings
  and the serialisable copies of the settings states.
- `tests/` exercises the library on concrete values.
