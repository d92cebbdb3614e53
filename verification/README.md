# spike

The simulation core of a factory-building game, written in Verus: every
function in `src/` carries a contract, and all but one are proved against it.
The exception is `hash_pair_list` in `world.rs`, a trusted wrapper around
std's `Hash` for the terrain pair list, whose contract is taken on trust.

- `src/` — the verified library: building and resource tables (`building`),
  exact decimal quantities (`fixed`), cell sets and maps (`cells`),
  footprints, the placement grid and fog of war (`grid`), building placement
  (`placement`), group formation (`groups`) and group control (`control`), the
  production calculator (`calculator`), transport tiers (`transport`), the
  world map (`world`), run settings (`run`), and meta progression: difficulty,
  trading rates (`meta`), the unlock store and wallet (`store`).
- `tests/` — scenario tests of the library.
- `app/` — the bevy side: components, resources, messages and systems that
  drive the library each tick, and the floating-point parts of the game
  (energy, production buffers, trading inflation, run-end awards, dashboard).
