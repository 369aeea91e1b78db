# vigy

Always-on reconciler runtime: small tatara-lisp programs ("vigies") tick on a
fixed interval, emit reconcile actions and are recorded as runs. The runtime
keeps a key/value state per vigy between ticks (the tick count and the
previous tick's start); the library's host can also read and write other
keys, though the interpreter registers no intrinsic for that.

## Layout

- `src/` — the verified library (Verus).
  - `vigy`, `id`, `label`, `action`, `run`, `state`, `schedule`, `error`,
    `clock` — the domain: content-derived ids, validated labels and
    `k=v,k=v` selectors, tick intervals, schedules, runs.
  - `store` — an in-memory store (vigies, runs, per-vigy key/value state)
    with the ordering and read-after-write laws; `row` reads stored rows back.
  - `eval` — the per-tick host the program's intrinsics act on.
  - `runtime` — the tick loop's decisions: back-off, the host a tick starts
    from, what a finished tick records and saves.
  - `api` — request logic shared by the REST, GraphQL, MCP and CLI surfaces.
  - `kv`, `json`, `text` — small verified building blocks.
- `tests/` — tests of the library.
- `app/` — the `vigy` binary: CLI, tokio tick tasks, SQLite persistence via
  SeaORM, the tatara-lisp interpreter bridge, and the REST / GraphQL / MCP
  surfaces. There is no gRPC surface: its service is generated by
  `tonic-build`, which needs `protoc` and a `.proto` file that this
  project does not have.

Each public function of `src/` states its result in its `ensures`, except
`TickInterval::as_duration`, whose `std::time::Duration` is opaque to the
verifier; the properties that span several calls are public `law_*` proof functions.
