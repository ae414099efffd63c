# minecrust

The discrete core of a small Vulkan block game, verified with Verus.

- `src/` is the library. Every function in it carries a contract that Verus
  proves: centred voxel grids (`vector`), octant numbering and the octree's
  entity split and ray traversal order (`types::octants`, `octree`), the
  median and point split used for bounding-volume trees (`bvh`), the
  contact-to-face rule and plane/box sign test (`geometry`), glyph metric and
  bitmap conversion (`freetype`), vertex attribute layout (`gl`), key press
  bookkeeping and the game loop's input decisions (`event_handlers`, `game`),
  the Vulkan memory-type and queue-family choices (`vulkan`), and what the
  OpenGL debug callback reports (`debug`). Laws that
  relate several functions are public proof functions next to them.
- `tests/` runs the library on concrete values.
- `app/` is the application around it, in plain Rust: the window, Vulkan and
  FreeType calls, the ECS world, and all geometry on floating-point values
  (camera, rays, boxes, the float side of the octree). It asks the library
  for every decision that can be made on integers and booleans.
