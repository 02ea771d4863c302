# drakkar_vfx

The logic of the Drakkar VFX particle editor, written in Verus and proved
against its contracts.

- `expr`: the particle expression language — tokenizer with syntax
  highlighting and completions, syntax trees and their display, a
  recursive-descent parser specified by a grammar of spec functions, and
  result-type inference. Real literals are exact decimals. Laws of the
  language stand beside it: what is shown reads back as the expression,
  whitespace between tokens does not change a parse, calls succeed exactly
  with the right number of arguments, and tokens fit their texts.
- `models`: particle attributes, value types, dimensions, and the init, update
  and render modifiers with their defaults and names.
- `events`: the events editor components send.
- `history`: an asset's bounded edit history with undo and redo.
- `blocks`: adding, removing and reordering the items of a sequence block.
- `editor`: which editor sections are expanded.
- `browser`: file-list navigation, selection, name filtering and sorting.
- `client`: the decisions of the viewer connection's worker (batching of
  asset updates).
- `name_map`, `text`: small maps keyed by name, and character and string helpers.

`app/` holds the command-line front end: argument handling, directory
listing, the TCP loop to the viewer, and the conversions to and from `f32`.
