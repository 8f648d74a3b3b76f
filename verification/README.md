# smq_engine (verified core)

The asset pipeline and editor logic of the smq game engine, written in
Verus and proved against its specifications.

## Layout

- `src/` — the verified library
  - `text.rs` — string helpers with exact specifications (`replace`, search,
    decimal notation, trimming)
  - `wgsl.rs`, `analysis.rs`, `shader.rs` — reading the structs of WGSL
    shaders (parsed and validated by `naga`) and merging the uniform structs
    of all shaders
  - `layout.rs` — uniform-buffer layout of those structs and the Rust code
    generated for them
  - `bake.rs` — the rest of the generated asset module (textures, render
    textures, meshes, blit setup) and asset naming
  - `plan.rs` — what the bake step does with each asset file, the data slot
    and mesh number that each takes, and when a run's shaders can be used
  - `config.rs` — the settings records of assets and of the editor
  - `formats.rs` — texture formats, usages, samplers and face culling named
    in settings files
  - `smf.rs`, `bvh.rs` — the mesh file format, mesh export from model
    primitives, bounding volume hierarchy layout and the hierarchy file
  - `input.rs`, `editor.rs`, `assets.rs`, `logger.rs` — keyboard state, editor
    tabs and inspector, the asset browser, and `log_expect`
- `tests/` — tests of the library
- `app/` — the baker program: file system walks, reading and writing files,
  glTF import, and the `f32` work of building hierarchies

Floating-point values (vertex attributes, bounding boxes) are carried
through the library as their IEEE-754 bit patterns.
