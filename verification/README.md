# sched_sim

A simulation of CPU-bound and IO-bound tasks competing for workers under a
shared CPU budget, with its scheduling decisions verified by Verus.

- `src/` is the verified library: tasks and their kinds (`task`), run
  parameters (`config`), the seeded task generator (`generator`), the
  two-queue weighted policy, CPU admission and worker stopping
  (`scheduler`), the shared CPU budget (`budget`), completion metrics (`metrics`), monitor samples and their
  CSV lines (`monitor`), and a few small numeric routines (`numeric`).
- `app/` is the program around it: threads, sleeps, atomics, the CSV file,
  floating-point averages and printing. `app simulation` runs the
  simulation, `app exercises` the numeric exercises.
- `tests/` runs the library on concrete values.
