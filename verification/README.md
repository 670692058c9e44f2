# fluid_rust

A proof-carrying compiler pipeline, a discrete proof engine front end and a
managed runtime, written in Verus with contracts on every library function.

- `src/compiler`: the lexer and parser, ownership analysis, the elaboration
  context, RMIR (instructions, the execution state machine, capability and
  effect tracking, the binary encoder and decoder with a round-trip law), the
  compilation artifact and the pipeline.
- `src/prover`: ASP facts and rules, SMT constraints and the solver bridges,
  proof obligations, certificates and the certificate checker.
- `src/runtime`: effect handlers, the effect optimizer, the proof cache, the
  JIT specializer, the error handler, schedulers, garbage collectors, the
  profiler and the integer parts of the configuration.
- `src/outside.rs`: the trusted calls into std, `blake3` and `chrono`, each
  with the contract its documentation supports; `src/timestamp.rs` builds
  RFC 3339 timestamps from them.
- `app/`: what stays outside the verified library: floating-point ratios,
  JSON exports (serde), the configuration with its sample rate, reading source
  files, and the command-line banners.

