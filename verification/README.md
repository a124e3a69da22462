# actr_hyper

The decision core of an actor host, verified with Verus.

- `conflict_key`, `wire`: projecting a request to the key that it conflicts on,
  from a protobuf field of its payload or from its sender.
- `scheduler`, `dispatch`, `executor`: same-key order, concurrency budgets,
  barriers, back-pressure, cancellation and shutdown.
- `pack`: reading signed packages and verifying signature, digests and limits.
- `wasm`: quotas, store limits, fault classification, serial entries and the
  resident region that runs several dispatches on one instance.
- `dynclib`, `workload`: bridge tokens, symbol resolution, requests and shutdown
  of shared-library workloads, and the guest ABI's frames and status codes.
- `network_error`, `protocol`: error kinds and what transport errors become.
- `resource`: memory, network and disk accounting.

`src/` is verified: every function states what it does over mathematical models,
and the laws that relate several functions are public proof functions. Outside
crates are called through small declarations whose contracts say what is relied
on. `app/` is the asynchronous glue around the core, and `tests/` exercises the
core from outside.
