# voxl

The core of the Voxl voxel engine, written in Verus: each public function
states what it does in `requires` / `ensures`, and Verus proves the code
against it.

## Layout

- `src/` — the verified library.
  - `voxel/` — chunks with their palette, block faces and their geometry on
    integer corners, the block registry, block models and their resolution.
  - `renderer/` — which faces of a block are drawn, ambient-occlusion
    levels, the texture atlas layout and pixels, dirty chunks, the mesh and
    generation request pipeline, mesh queues and render state.
  - `tracking/` — what the client knows of each chunk (requested,
    generated, meshing, meshed) and the transitions between those states.
  - `worldgen/` — world generation settings and the decisions that turn
    sampled noise into blocks: terrain layers, caves, ores and trees.
  - `input/` — keys, bindings, the input state and the action manager.
  - `debug/` — chat, chat commands and the debug overlay text.
  - `frame.rs` — what one frame of the client does, from the input state.
  - `networking/`, `performance/`, `entities/`, `game.rs`, `raycast.rs`,
    `util/` — packet framing and session state, frame statistics, game
    modes, block selection, block adjacency and text helpers.
- `tests/` — tests of the library on concrete values.
- `app/` — the client around the library: the window and event loop,
  configuration and asset files, texture images, noise sampling, and the
  floating-point geometry of meshes, cameras and physics.

Each law of the library (what holds across its functions) is a public
`proof fn` whose name starts with `law_`.
