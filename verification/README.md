# inf_editor_core

The document model of a level editor, verified with Verus: the scene and its
undo history, the versions of the level format, carving and tile painting, and
the keyframe sequencer.

- `src/scene/` holds the document. `record` and `entity` are what a level knows
  of an entity, `doc` the document, `command`, `edit` and `history` its edits and
  their undo, `save`, `file`, `decode` and the `ladder_*` modules the format and
  its earlier versions, `storage` the files of a level and its crash recovery, `carve`, `stroke` and
  `dig` the digging, `tilemap` and `paint` the tiles, `foliage` the scatter,
  `reflect` the properties that the document spells out, `replay` the steps of an
  undo that the engine has a part in.
- `src/sequencer/` holds tracks, sequences, the paths they address and the
  preview that scrubs them over a document.
- `src/bits.rs`, `src/text.rs`, `src/guid.rs` and `src/props.rs` are what both
  stand on. Floating-point numbers are carried by their bits and ordered as the
  numbers are.
- `tests/` runs the library.
- `app/` is the editor around it: files, the engine's components, voxel volumes
  and everything that computes with floating-point numbers.

Functions named `law_*` are the promises that span several functions.
