# substrate

A first-person life simulation: a small apartment rendered by a raycaster,
nineteen interactive object kinds, a roommate driven by needs-based AI and
an in-game clock at 72:1.

## Layout

- `src/` is the simulation core, written in Verus with its contracts and
  proofs: needs and their decay, the object kinds and their state machines,
  the `Object` sum type and the `Objects` collection, player interaction,
  the NPC's decisions, schedules, memory (`Mind`), the clock, the tile grid,
  the scene text format (parse and serialize, with a round-trip law), the
  kind factory that emits Rust source for generated kinds, and facet
  addressing.
- `tests/` runs the library on concrete values.
- `app/` is the program around it: the window and main loop, positions and
  movement in the plane, raycasting and rendering, lighting, real-time
  timers and sprite generation. These work in floating point and stay
  outside the verified core.
