# edgequest

The world model of a small roguelike, verified with Verus: tiles and their colors,
grids, rooms and corridors, dungeon filters (rooms, stains, blood, prefab structures),
the drunkard's walk, scent blooms and player turns, the cameras and the renderer's
per-tile decisions.

- `src/` is the verified library. Randomness comes from the `rand` crate through three
  trusted wrappers in `src/random.rs` (`gen_range`, `gen_bytes`, `pick`). Every function
  that uses them states what holds whatever the generator returns: the rooms, stain
  patches, blood splashes and structures as the result of some draw within its ranges,
  and each tile of a patch or splash as one stain or blood step per covering square.
  Where a public sibling takes the draws as arguments, its result is pinned down exactly:
  `place_rooms`, `walk_dice`, `add_struct_at`, the builder's `build_at`, `stain_with`,
  `bloody_with`, `seed_with`.
- `app/` is the game on a tcod console: window, keyboard, files, and the floating-point
  math (color transitions, simplex noise, scent diffusion, the walk's chaos draw).
- `tests/` runs the library on concrete maps.
