# gridworld

The world model of a tile-based sandbox game, as a library whose behaviour is
stated in contracts and proved with Verus.

- `src/vector.rs`, `src/aabb/`: integer vectors and half-open rectangles,
  their arithmetic, the walk over a rectangle's points, and grid spaces.
- `src/model/`, `src/models.rs`: kinds of blocks, entities and units, and
  inclusive integer boxes.
- `src/assets.rs`: the asset specifications and how the labels of the asset
  file resolve to specification numbers.
- `src/game_loop/`: the storages of bases and blocks with their spatial
  indices, and the generation of grid cells that come into view.
- `src/atlas.rs`, `src/render/`: texture atlas layouts (placement by the
  `rectangle_pack` crate) and the models and textures the renderer draws.
- `tests/`: tests run against the compiled library.
- `app/`: a headless program around the library: it reads the JSON asset
  file, draws the random numbers of world generation, keeps the entities
  (whose positions are floating point), and draws atlas pages with the
  `image` crate.
