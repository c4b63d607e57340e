# softrender

A software rasterizer whose integer logic is specified and proved with Verus.

- `src/` is the verified library: stencil values, tests and operations;
  pixel coordinates and dimensions; the clipping plans that decide which
  vertices a clipped primitive is made of; primitive assembly and the storage
  of primitives by kind; Bresenham line stepping; the tiling of the render
  target; the fragment stage's decisions (stencil stage, culling, the pixels
  of a bounding box in a tile, the depth test, what a stored or discarded
  fragment does to the color and depth planes); pixel buffer access (whole,
  partial, by reference, by iteration); and the color plane of a framebuffer.
- `tests/` exercises the library on concrete values, including the laws that
  `src/` proves.
- `app/` holds what the verifier does not: the floating-point parts (clip-space
  and screen-space vertices, plane tests and intersections, anti-aliased lines,
  depth keys and blending, interpolation, projection, rasterization of
  triangles, lines and points), the work spread over threads, the pipeline
  that renders triangles, and the renderer and scene interfaces.
