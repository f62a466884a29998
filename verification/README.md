# nacelle

A runtime core for servers that stay within their limits: framed byte streams,
admission and peer rates, shared memory budgets, an HTTP edge and telemetry. The
logic is written in Verus: functions carry contracts over mathematical models, and
the properties that span functions are proved as `law_*` functions beside them.

## Layout

- `src/codec` — decoders, encoders and length-delimited frames, with the readers
  and writers that drive them.
- `src/peer_rate` — a bounded table of fixed windows, one per peer, and what it
  keeps over any number of attempts.
- `src/peers.rs`, `src/limits.rs`, `src/memory.rs` — open connections by peer, the
  counters of a runtime with their permits, and a memory budget whose waiters are
  served in order.
- `src/gauges.rs` — the gauges that follow those counters and that budget.
- `src/edge` — the HTTP edge: forwarded addresses, request policy, security
  headers, body limits, deadlines and the decisions around a request.
- `src/telemetry` — events, observers, and changes to metrics as plain values.
- `src/pipeline.rs`, `src/body.rs`, `src/response.rs`, `src/connection.rs`,
  `src/lifecycle.rs`, `src/error.rs`, `src/tls.rs`, `src/stress.rs` — the handler
  contracts and the values that pass through them.
- `app` — sockets, timers, tasks, locks and metrics backends around the library.
- `tests` — the library from outside.

## Outside code

What comes from `bytes`, `http`, `pem`, `rustls`, `rcgen` and the standard library
is called through small items whose contracts are believed rather than proved. Each
is documented where it stands: `src/buffer.rs`, `src/body.rs`, `src/connection.rs`,
`src/edge/headers.rs`, `src/tls.rs` and `src/peer_rate/mod.rs`.

State that servers share has one owner in the library and is put behind a lock in
`app`.
