# rustlab

A Verus-verified library of small systems exercises, with command-line
programs around it.

- `src/buffer.rs`: a buffer whose integer contents are summed without overflow.
- `src/text.rs`: string comparison, byte shifting, substring search, and
  white-space word splitting, with the shared character helpers.
- `src/rc.rs`: a counted value cell and a shared pointer.
- `src/stack.rs`: a last-in, first-out stack.
- `src/executor.rs`: the run queue, the wake-up signal and the `block_on`
  loop of a single-threaded executor, as state machines, and the demo's
  busy work.
- `src/kv.rs`: a key-value service, its client's command parser and its
  request filter.
- `src/http.rs`: the requests and answers of the service's web gateway.
- `src/cluster.rs`: an item store node that replicates writes to slaves,
  routes keys through a proxy, keeps and replays a write log, and answers
  channel requests.
- `src/find.rs`: the decisions of a file finder: options, regular-expression
  name matching and sorting.

`app/` holds the programs (`hw2`, `rc`, `executor`, `server`, `client`,
`http`, `node`, `myfind`): argument handling, threads, locks, files and sockets.
