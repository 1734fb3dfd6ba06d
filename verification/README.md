# procedural-city-gen

A procedural city generator: a Voronoi skeleton is grown inside a boundary
polygon, its cells become blocks, blocks are cut into plots and plots into
buildings, and the result can be exported as a Wavefront OBJ file.

`src/` is the verified library (Verus). It holds the combinatorial and
bookkeeping logic, each function with a contract and the library's laws as
proof functions:

- `merge` — greedy grouping of nearby circumcenters (which merge, and the
  mapping from each circumcenter to its group);
- `cells` — Voronoi cells as index lists built from a triangulation's faces,
  the cell filter, faces around a vertex, triangles around a point;
- `skeleton` — the skeleton over generic point types, its validity check;
- `split` — splitting a polygon ring along a cut;
- `mesh` — triangle index buffers of footprints, buildings and roads;
- `obj` and `decimal` — the OBJ file layout and decimal number text;
- `panel` — what a frame of control-panel changes asks for, seed parsing;
- `regeneration` — which skeleton steps a regeneration request calls for;
- `town` — per-block seeds and ids;
- `types` — modes, selections, toggles and events.

`app/` is the Bevy application around it: windowing, egui panel, ECS
systems, and all floating-point geometry (distances, areas, intersections,
triangulation with spade and delaunator, random placement with rand).
