# aion

The core of a durable workflow engine: what it decides, proved.

Workflows are recorded as append-only histories. A run is a segment of its
workflow's history; what a run is doing, whether it has ended, and which timers
are still due are all projections of the history. The engine starts runs, keeps
them registered while their processes live, ends them at most once, and brings
them back after a crash.

- `src/` holds the engine's decisions. Everything in it is verified with Verus.
  - `event`, `history`, `time`: events, and the projections of histories.
  - `package`, `loader`: package versions, their catalog, routing, pinning and
    unloading.
  - `registry`: live runs.
  - `lifecycle`: start, completion, termination, continue-as-new, deadlines,
    pause, reopen, visibility.
  - `engine`: admission and shutdown, construction, signals and queries,
    schedules, shard adoption, startup recovery and its repair sweeps.
- `app/` performs what the library asks for: it reads and writes the store, runs
  processes and waits.
- `tests/` run the library on concrete histories, catalogs and registries.

Work that alternates decisions and effects is a value with a phase: the caller
performs the step that the phase names and hands back what came of it with
`advance`. What such a machine does is stated step by step, and what holds over
a whole course of it (that a process is spawned only after its start is
recorded, that a failed start leaves no process without an owner, that a shard
is fenced before it is recovered) is stated as a public proof function beside
it.

Four functions call into `chrono` and `uuid`, and one into the standard library.
Their contracts are taken on trust; each says so where it stands.
