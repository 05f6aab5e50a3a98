# veloren_server

The decisions of a voxel game server, verified with Verus: which voxels of a
volume are meshed, where players enter the world, who is let in, in which order a
tick does its work and how long its parts took, which entities leave with the
terrain, what becomes of the answers of the database, what is answered to a chat
command, and who may administrate the server.

- `src/` is the library. Its types hold what the decisions read as plain values,
  and its functions return what is to be done as plain values. `src/server.rs`
  ties the parts together.
- `src/ecs.rs` reads the entity store. It, `src/geometry.rs`, `src/settings.rs` and
  `src/banned_words.rs` call outside crates; each such call stands in a function
  of its own whose doc comment says what is taken on trust.
- Public proof functions state what holds across calls: that a mesh holds exactly
  the coloured voxels of its range, that a tick goes through its schedule and ends,
  that a queue fills the server and no more, that an entity is deleted just when it
  has strayed.
- What a function asks of its arguments can be tested first: `is_well_formed`,
  `has_sides`, `can_measure_sites` and their like say exactly whether it holds.
- `app/` performs the decisions: it owns the clock, the files, the metrics endpoint
  and the entity store, and asks an `Engine` for everything else of the game.
