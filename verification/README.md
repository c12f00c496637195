# nvgx

The verified core of a NanoVG-style vector graphics renderer, written in
Verus.

`src/` holds the integer logic of the renderer, each function with a
contract that Verus proves:

- `cache`: sub-paths and point flags of flattened paths (merging repeated
  points, closing, reversing, flagging joins);
- `expand`, `stroke`: how many vertices fills, strokes and wire lines
  reserve, and where each path's vertices go, with the proof that what is
  laid out fits what is reserved;
- `path`: cached expansions of a path and the plan of drawing it;
- `call`, `render`, `mesh`: recording draw calls, the shared triangle-fan
  index list, and the ordered draw steps of each call;
- `pipeline`, `pipeline_cache`: pipeline states per usage and the cache of
  idle pipelines;
- `texture`, `uniform`, `context`: textures by id, samplers, uniform
  buffer sizes, the render-state stack and frame statistics.

`app/` is ordinary Rust around it: floating-point geometry (flattening,
vertex coordinates of caps and joins, paint matrices) and the wgpu objects
that carry out the library's decisions.
