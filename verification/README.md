# alien_archive

Content model and editing logic of the Alien Archive game, verified with Verus.

- `src/` — the library. Content tables (assets, codex, cutscenes, events, items,
  objectives, semantics), the map's tile and collision layers, map validation, and the
  map editor's logic that does not depend on its user interface (`src/editor/`: ground
  painting, terrain autotiling, bucket fill, stamps, the asset palette, id generation,
  outliner search, cutscene and event tables, recent maps). Every function carries a
  contract that Verus proves; laws that relate several functions are public proof
  functions named `lemma_*`.
- `app/` — a command-line front end: reads and writes the RON files, computes what needs
  floating point (positions, sizes, footprints inferred from pixel sizes), and calls the
  library. Run it with `validate`, `autotile`, `assets`, `recent`, `events`, `cutscenes`
  or `items`.
- `tests/` — tests of the library on concrete values.

Floating-point values never enter the library: sizes and durations travel as the bit
patterns of their `f32` values, and map validation reads a `MapFacts` summary that the
front end prepares from a map document.
