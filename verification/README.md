# arcadedb_protocol

A client for ArcadeDB's gRPC interface whose logic is verified with Verus.

- `src/` is the library. It holds the wire model and the typed rows over it, the statement
  checker, the clause builders, the JSON bridge, the record derives from a declaration to the
  emitted impls, and the client's requests, answers and state machines. Every function states
  what it returns, and the promises that span functions stand as `law_*` proof functions.
- `tests/` runs the compiled library.
- `app/` is ordinary Rust around it: the async client over a gRPC service, the environment and
  the clock, and conversions from and to `chrono`, `rust_decimal`, `serde_json` and floats.

Floating-point numbers are bit patterns in the library, and maps keep the order in which their
names first came in.

What the library takes on trust is marked `external_body` or `assume_specification`: calls into
`chrono` (`time`), `rust_decimal` (`decimal`), `syn` (`derive::attrs`),
`tonic` (`error`, `options`) and a few functions of the standard library (`text`, `cache`).
