# raytracer

A small ray tracer's scene library, verified with Verus.

`src/` holds the verified library:

- `vector`: vectors whose components are IEEE-754 single-precision bit
  patterns; the library moves these values but does no arithmetic on them.
- `scene`, `defaults`: the scene description types and their defaults.
- `args`, `from_args`, `parse_args`: reading cameras, lights and objects
  from command-line words.
- `color`: decoding `#rrggbb` colours.
- `inline`, `assets`: packing mesh and texture descriptions inline (gzip and
  base64), bringing assets into buffer form and turning OBJ faces into
  triangles.
- `render`, `bvh`: textures, placements, light kinds, camera and frame, and
  the construction of bounding volume hierarchies, with the exact tree
  that building gives (`built_by`) and its well-formedness (`bvh_wf`).

`app/` holds what is floating-point work, I/O and serde: vector arithmetic,
the tracer itself, JSON scene types and file loading.
