# bbmodel

A library for [Blockbench](https://www.blockbench.net/) model files
(`.bbmodel`), with its logic formally verified.

## Layout

- `src/` — the verified library.
  - `lib.rs` — the root document (`BBModel`), render-ready triangles
    (`Tri`), display settings, defaults for absent fields, and the model's
    queries: filtering cubes, meshes and visible elements, finding elements,
    groups, textures and collections by UUID, and collecting the
    triangulation of every element.
  - `element.rs` — cubes and meshes, keyed look-up, and the lazy
    triangulation iterators: two triangles per present cube face, meshes
    fanned face by face.
  - `keyed.rs` — values keyed by text, each key held at most once (the
    type's invariant), with insertion that replaces a key's value.
  - `render.rs` — decoding embedded `data:` URIs, texture indices and image
    sources, UV resolutions, and grouping triangles into one section per
    texture index.
  - `metadata.rs`, `texture.rs`, `collections.rs`, `animation.rs` — the
    rest of the data model.
  - `prelude.rs` — every public type and operation in one place.
- `tests/` — tests of the library on concrete values.
- `app/` — code around the library: the JSON format (serde copies of the
  types, converted to and from the library's), floating-point geometry
  (cube corner positions, face normals, UV normalisation), and the Bevy
  plugin that loads models and their textures and spawns meshes.

Floating-point values are held in the library by their IEEE-754 bit
patterns, so they pass through it unchanged; every arithmetic operation on
them is in `app/geometry.rs`.
