# ores-otel-sidecar

The shared runtime of product sidecars, as a verified library and a thin program.

`src/` is the library. It holds what a sidecar decides and computes: which requests it
accepts and how it answers them, which address it may listen on, which runtime values a
backend may override and in which order updates apply, how frames are received, what a
diagnostic says, and when a host agent suspends or resumes an idle workload. The
functions state in their contracts what they return, and Verus proves it. Where others
decide too, the contract says what holds whatever they do: where a product implements a
trait, and where several handles share runtime values. What such a handle reads is given
by some state that its configuration admits; which one, the handles decide together. The
proof functions whose names begin with `law_` state what holds across functions.

`app/` is ordinary Rust around the library: the executable, sockets, files, the
environment, the clock, the resource collector, host effects, leases, and the handle on an
update controller that threads share.

`tests/` runs the library on concrete values.

What is trusted and not proved is marked `external_body`, `assume_specification` or
`external_type_specification`. These items stand in `src/json.rs` (`serde_json`),
`src/log.rs` (`time`), `src/error.rs`, `src/file_config.rs` and `src/text.rs` (the standard
library), each with a comment that says what it claims.
