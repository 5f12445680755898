# async_lab

A verified library for the Async Lab course: the answers to the async mental-model exercises
(actors and their responsibilities, concurrency versus parallelism, the frozen-ticker diagnosis,
the one-worker connection state machine, and the wake-up path), and the logic of the exercise
runner (terminal styling, content fingerprints, the progress file, hint rendering, exercise
lookup, and how check outcomes are settled).

- `src/` is the library, verified with Verus. Each function's contract states its result over
  spec functions; laws of the library stand as public proof functions beside the code.
- `tests/` exercises the library on concrete values.
- `app/` is the `async-lab` command-line runner: file-system access, process spawning, the
  spinner, and printing, calling into the library for every decision and every text it prints.
