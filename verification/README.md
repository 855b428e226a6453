# sari_pso

The decision logic of a self-adaptive rotationally invariant particle swarm
optimiser, verified with Verus.

- `src/` holds the verified library: the run settings (`mode`), the ring of
  per-generation statistics that steers the choice of the search radius
  (`late_info`), the choice of the radius from those statistics
  (`selection`), the search-angle histogram (`search_angle`) and the order of
  the steps of a run (`schedule`).
- `app/` holds the program around it: the floating-point arithmetic of the
  particles (places, velocities, fitness, probabilities), the drawing of the
  figures, the saving of checkpoints and the progress bars. It creates the
  swarm, then carries out, in order, the steps that the schedule names.
- `tests/` exercises the library on concrete values.
