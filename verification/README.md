# flame

The logic of the Flame components as a verified library: the storage
formats, the object caches, the executor manager's decisions, the CRI pod
requests, the shims' directory and environment layout, the client SDK's
configuration, queue and service answers, and the installer's rules. Verus
proves the contract of every function in `src/` except the few wrappers that
call outside crates, whose contracts are taken on trust.

Layout:

- `src/storage/`: the object store (fixed-size records, an owner index) and
  the append-only data store, with the owner index text format.
- `src/cache/`: cache endpoints and interface selection, the session object
  cache, the HTTP cache and the Arrow Flight index and action formats.
- `src/executor.rs`: executor bookkeeping, the idle executor's binding
  steps, the watch stream's reconnection and reading.
- `src/shims.rs`: executor working directories, host instance layout and
  environment, the log and gRPC shims.
- `src/cri.rs`: pods, containers and the runtime requests made for them.
- `src/sdk/`: client configuration, tasks and nodes, the closable FIFO
  queue and the service answers.
- `src/install.rs`, `src/flmctl.rs`, `src/flmexec.rs`: installer rules,
  application files and the script service.
- `src/deps.rs`: the wrappers around `url`, `base64`, `uuid`, `rand`,
  `chrono` and `regex`; the installer reads the user id through `users`.
  Their contracts state what those crates' sources show and are believed,
  not proved.
- `app/`: files, network interfaces, shared queues, the installer's
  commands and terminal output, host instance processes, and the loops
  that drive the executor manager, around the library.
