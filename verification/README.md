# mill_node

The node runtime of a small container orchestrator: one of the nodes of a
cluster leads, all of them run containers, and they agree on a replicated
state.

The library under `src/` holds every decision that the runtime makes, with a
contract that Verus proves:

- `primary` — what the leading node decides: where allocations go, what a new
  configuration changes, how services are started, updated and drained, when a
  silent node is given up, what the API answers.
- `secondary` — what a node that runs containers decides: starting and
  stopping them, finding out after a restart what still runs, figures, logs.
- `rpc` — frames, routing, authentication and reconnecting between the two.
- `daemon` — bringing a node up, letting it join or leave a cluster.
- `storage` — volumes in the cloud.
- the other modules — texts, times, tables, addresses, settings and errors.

Work that alternates with the outside world is written as a state machine:
`begin` gives the first action, or `new` a state in which the replicated state
is read first, and `step` takes what came of an action and gives the next one.
The relation between the two is a spec function, and laws about steps and
whole runs are proof functions beside it.

Amounts of CPU are held in billionths of a core, spans of time in nanoseconds,
so that nothing in the library is a floating-point number.

`app/` carries the actions out: sockets, files, clocks, tasks, the HTTP API.
`tests/` runs the library on concrete values.
