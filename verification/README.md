# voxel_view

The viewer of a voxel editor: smooth surfaces of voxel models, smoothing by sculpting,
the hover preview of editing tools, and the state and frames of the renderer.

- `src/` is the library. Every function in it is verified with Verus against its
  contract. `smooth_mesh` makes surfaces by marching cubes and dual contouring,
  `sculpt_mesh_smooth` smooths voxels, `preview` decides what is shown under the
  pointer and under which key it is cached, `render` keeps the state of the viewer and
  plans its frames. `collections` and `voxel_index` hold what these share.
- `tests/` runs the library on examples.
- `app/` is the viewer on a window: the graphics device, text, and geometry in floating
  point.

What is believed without proof is marked in the source: the hash collections and the
hasher of `ahash` (`collections.rs`, `preview/keys.rs`), the byte casts of `bytemuck`
(`render/mesh_buffers.rs`), and the sort of the standard library (`collections.rs`).

Numbers with a fraction reach the library by their bit patterns or as exact fractions.
