# turbocharge

The decisions behind `turbo turbocharge` and the watching of package hashes, as a
library verified with Verus.

- `src/diagnostics/` holds the diagnostics: Git's file system monitor, the daemon,
  the editor extension, the remote cache, and updates. Each is a machine that is
  told an event and names the effects to perform. Every run opens once, and closes
  once unless the terminal has gone.
- `src/turbocharge.rs` is what the terminal shows while they run, one diagnostic at a
  time.
- `src/package_hashes/` holds the ways to hash packages, and the machines that keep
  the package graph, the hasher and the hashes up to date while files change.
- `src/filewatch.rs` is the plain file watcher, which keeps hashes and tells of new ones.
- `src/annotations.rs` and `src/server_to_client_proxy.rs` build syntax trees.
- `src/assoc.rs`, `src/task_id.rs` and `src/text.rs` are what the others share.

`app/` performs what the library decides: it runs Git, talks to the daemon and the
terminal, reads files, and moves values between tasks. What belongs to the program
around it stands there as traits, in `app/collaborators.rs`.

`tests/` runs the library on concrete values.
