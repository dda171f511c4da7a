# sensitive_fmt

The logic behind the `SensitiveDebug` and `SensitiveDisplay` derives, which
write `Debug` and `Display` implementations that keep PHI, PII, secrets and
tokens out of log lines. A field may be marked `#[sensitive(redact)]`,
`#[sensitive(truncate = N)]` or `#[sensitive(skip)]`.

The library is written in Verus. Every function in `src/` is verified against
its contract, except `literal_u32` in `src/parse.rs`: it calls `syn` to read an
integer literal, and its contract is trusted.

- `src/input.rs`: the derive input held as plain values; pieces of the input
  that errors point at or that the output repeats carry a node number.
- `src/parse.rs`: planning, from the field attributes to what each field
  shows, with every error the derives report.
- `src/codegen.rs`: the generated implementation, as text and spliced nodes,
  including the `where` clause with the bounds that the fields need.
- `src/render.rs`: a model of what the generated implementation writes when
  it runs, and the laws that hidden values never reach that output. It is a
  separate statement, tied to the emitted code by the tests, not by proof.
- `src/names.rs`: names compared and kept as ordered sets.
- `app/lib.rs`: the compiler-facing edge, which reads the input with `syn`,
  calls the library and turns its result back into tokens.
- `tests/`: scenarios on concrete inputs.
