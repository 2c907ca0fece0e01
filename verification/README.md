# gravity

The verified core of a small physics game in which the player flings objects
into a cube of mutually attracting spheres.

- `src/` is the library, verified with Verus:
  - `compute_state`: change tracking that decides when the gravity compute
    pass must be re-seeded, with its laws (a touch always dirties, a clean
    always settles and forgets earlier touches, ...);
  - `entity_bits`: how a simulation slot names its entity (two 32-bit halves)
    and how collision records are decoded;
  - `galaxy`: force types and slot flags, galaxy counts, the set of hand edits;
  - `gravity_sync`: the input and output steps of the compute pass: which
    slots are copied back to the world, how the slots are re-seeded, and the
    law that hand edits are never lost;
  - `levels`, `level_order`: difficulty, level progression, the first level's
    sphere grid, and the stable ordering of levels by id;
  - `menus`, `firing`, `players`, `mesh`: the decisions behind menu input, the
    fire button, player respawning and cutting a box out of a mesh.
- `tests/` exercises the library on concrete values.
- `app/` is the Bevy program around the library: systems, rendering, audio,
  physics and everything that works on floating-point values.
