# iii_core

The decision-making core of the iii engine and its Rust worker SDK as a
Verus library: every function in `src/` carries a `requires`/`ensures`
contract over mathematical models (character sequences, JSON documents,
integers), and the laws the library promises are public proof functions
(`law_*`).

- `src/` — the verified library (see the module list in `src/lib.rs`).
- `tests/` — executable tests of the library.
- `app/` — the runtime around it: serde/schemars types converted to and from
  the library's, JSON Schemas, the config-file rewrite, OTLP exporters, the
  engine telemetry connection, log/metric exporters, HTTP request tracing,
  and the loops that carry out the stream worker's boot, the workers'
  configuration registration, reads and changes, and the trigger fan-out,
  performing the outside steps the library decides on. The engine that
  provides those steps (function bus, adapters, listeners) is not part of
  this crate; the loops take it through small runtime traits.

The only trusted items are the specification of `String::push`, the
declaration of `std::time::SystemTime`, and two wrappers that read a
`SystemTime` as nanoseconds since the epoch; their results are named by
two uninterpreted spec functions (`since_epoch`, `duration_nanos`).
