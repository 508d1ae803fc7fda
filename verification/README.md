# ferrocopy

A parallel file copier with hash verification, whose decision logic is
written and proved in Verus.

- `src/` — the verified library: what to copy where, the copy loop's
  decisions, retry and backoff, outcome aggregation, streaming hashes and
  their text forms, progress bookkeeping, the copy window's state, the
  stage pipeline, plugin dispatch, change detection, SSH destination
  syntax, JSON-RPC answers, Lua filtering, the compositor's layer table,
  the file list's icon choice,
  and the small text formats (crash reports, GUIDs, shell command lines).
  Calls into `blake3`, `xxhash-rust`, `crossbeam-channel`, `mlua` and
  `num_cpus` go through small trusted wrappers whose contracts are stated
  beside them.
- `app/` — the `ferrocopy` command: argument parsing, file and network
  I/O on tokio, threads, the terminal progress display, SSH/SFTP, the
  JSON-RPC listener, the directory watcher, settings files, and the
  floating-point geometry of layouts and compositing.
- `tests/` — tests of the library against its real dependencies.
