# vg

The logic of a small game engine, verified with Verus.

- `src/` is the library. Each module states its behaviour in `requires` /
  `ensures` contracts and proves it:
  - `protocol`, `input`, `sfx`: what a game exchanges with its host, and the
    keyboard state it keeps from frame to frame;
  - `event`, `game`, `host`, `server`, `laminar`: players, their input, the
    shared game state, the events of each tick, and the in-order, exactly-once
    delivery of input events over datagrams;
  - `assets`, `asset`, `desktop`: asset ids, the asset table and caches, and
    PNG images turned into pixels;
  - `mesh`: subdivision of triangle meshes (icospheres);
  - `controller`, `graphics`, `shader`, `executor`: gamepad edges, renderer
    bookkeeping, shader build results, and the halt signal of the executor.
- `tests/` runs the library on concrete values.
- `app/` is the runtime around it: files, sockets, wire formats, the executor,
  and the floating point geometry and colors.
