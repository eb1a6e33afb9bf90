# moonwalk

The verified core of MoonWalk, a 2D/3D rendering engine on wgpu.

`src/` is checked by Verus. It holds what the renderer decides with
integers and strings:

- `objects`, `store`: object identifiers (kind and slot packed in one word),
  the structure-of-arrays object pool with its free list, dirty flags,
  packed attribute caches, texts and hit groups.
- `pipeline`, `moon_pipeline`, `pipeline_cache`: vertex layouts, bind groups
  and pipeline descriptions, their validation with exact error messages, the
  split and reduce fallbacks for devices with a small stride limit, and the
  cache of built pipelines.
- `batching`, `atlas`, `glyph_alloc`, `texture_atlas`, `color`: which objects
  a frame draws, the draw calls cut from the depth-sorted instances, shelf
  packing of glyphs, glyph bounding boxes and upload layout, glyph space from
  the `etagere` allocator, texture atlas layout (through `rect_packer`), and
  the packed colour word.
- `buffers`: the per-frame instance list of a batch beside its GPU buffer,
  and the two-buffer storage of split instances.
- `scene`: 3D instance and light bookkeeping, scene layouts and bind groups,
  batch keys and material flags, shadow map sizes.
- `fonts`: user fonts loaded into the `cosmic_text` font database.
- `error`, `fuse`, `random`, `video`, `text`, `brush`, `info`, `strings`:
  error types and backend message classification, debug limits, the jitter
  generator, video recording checks, and small options.

`app/` is ordinary Rust around it: floating-point geometry and packing, the
error types with their messages, the 3D transforms, cache-key hashing and
debug timers. `tests/` runs the library.
