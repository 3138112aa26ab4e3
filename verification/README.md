# clg

A terminal role-playing game whose world lives in a directory tree: areas
are directories, the player and the monsters are files, and the player moves
and fights by typing shell-like commands (`ls`, `cd`, `cat`, `find`, `cp`,
`mv`, `rm`, `attack`, `talk`, `use`).  A farm grows crops and breeds animals
in real time, and `*.template.json` files generate new entity files from a
schema.

## Layout

- `src/` — the game's logic, written in Verus and verified: the in-memory
  world and its entities, the virtual file system view of it, command
  parsing and execution, combat rounds, farming and breeding, the task
  scheduler, action key maps, the UI template language, template value
  generation, and the decisions of the main game loop.  Every public
  function carries a `requires`/`ensures` contract; the properties that span
  several calls are public proof functions named `law_*`.
- `src/rng.rs`, `src/text.rs` (`to_lowercase`, `push_char`),
  `src/engine/mod.rs` (the wall clock), `src/scheduler.rs` (the monotonic
  clock) and `src/ui_template.rs` (`char_width`)
  hold the few trusted wrappers around `rand`, `unicode-width` and `std`.
- `tests/` — tests of the library on concrete values.
- `app/` — the program around the library: terminal input and output,
  reading and writing the YAML and JSON files of the world, the file-system
  watcher, and the random float draws (damage variation, float template
  fields).
