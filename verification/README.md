# jangada

The consensus machine of a single server in a Raft-style cluster (leader
election and heartbeats), verified with Verus.

- `src/types.rs`: events fed to the machine and actions it answers with.
- `src/model.rs`: the mathematical model: a server's state and what one event
  does to it.
- `src/lib.rs`: `Machine`, whose `tick` is proved to follow the model.
- `src/laws.rs`: properties that hold across all events (invariant, terms,
  votes, leadership, timers, replies).
- `src/util.rs`: `MachineRng` and the default random election timeouts.
- `app/`: a driver that runs a machine on tokio, and serde copies of the RPC
  types.
- `tests/`: scenarios run against the compiled library.
