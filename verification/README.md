# crafty

Game logic of a voxel sandbox, verified with Verus.

- `src/` — the library:
  - `math`: greatest common divisor and least common multiple, with their laws;
  - `biome`: layers of a biome and the block at a depth, chunk coordinates,
    rings of chunks, the draw of biome centers and the search for the closest
    biome center (a step function driven by the caller);
  - `random`: the calls into `rand` and the standard hasher that seed and draw
    the generator of a chunk;
  - `entity`, `monster`: entity kinds and their wire codes, monster actions and
    the decisions of a chasing monster (whom it locks on, and what it does);
  - `renderer`, `controls`, `hud`: input events, the commands they give, and
    which parts of the head-up display are shown;
  - `menu`, `args`: menu contents and command-line options;
  - `protocol`: wire codes of messages and the integer payloads.
- `app/` — what stays outside the verified library: the command line (clap),
  the floating-point draw that decides whether a chunk holds a biome center and
  the loop that feeds the search, the geometry of a chasing monster, the
  frame-rate counter, the camera model, and the mapping of window-system key
  codes.
- `tests/` — tests of the library.
