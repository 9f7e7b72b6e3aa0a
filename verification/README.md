# piquel-log

Small, composable backend initialization for `tracing`, with its decisions
verified by Verus.

- `src/` is the verified library: severity levels (`level`), text helpers
  (`text`), timestamps through the `time` crate (`clock`), event capture and
  line rendering (`format`), file configuration and file naming (`file`), the
  logger's backend stack (`config`), the queryable entry log (`store`) and the
  error types (`error`).
- `app/` is the `tracing` integration around it: the shared `Logger` handle,
  the `BackendLayer` that `tracing` calls for every event, the console, file
  and store sinks, the shared `LogStore`, and global installation.
- `tests/` exercises the library on concrete values.
