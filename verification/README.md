# rocks2d_physics

Storage and scene bookkeeping of a small 2D rigid-body simulator built
around an XPBD solver, verified with Verus.

- `src/` is the verified library, generic over the scalar type `T`:
  - `state.rs`: `State`, the flat per-body transform and velocity arrays
    (three scalars per body), with push, query, update, finalize and
    replication.
  - `control.rs`: `Control`, the flat per-body force array.
  - `scene.rs`: `Scene`, bodies, shapes, mass properties, colours and joints;
    replication into identical environments with shifted joint indices, and
    the environment index of a body. Laws on what these operations keep are
    the `law_*` proof functions.
  - `replication.rs`: the `repeat` model of replication and the copying
    loops it is proved against.
  - `vector.rs`, `solver.rs`: `Vector2`, `Color`, `XPBDSolver`.
- `app/` is the program: the floating-point solver step, mass computation and
  default body parameters (`physics.rs`), and the raylib window (`viewer.rs`,
  `main.rs`), instantiated with `f32`.
