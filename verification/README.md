# sim_codegen

Parts of a generator of Verilator-compatible C++ simulation models for the
ARCH hardware description language, written in Verus: the text each part
emits is stated as a specification over the syntax tree, and the code is
proved to produce exactly that text, without overflow or panics.

Covered: `VFunctions.h`, clock-gate models, the `verilated.h` /
`verilated.cpp` prelude, pybind11 wrappers, expression lowering, pipeline
stage statements and custom arbiter grant logic. The models of modules,
FSMs, FIFOs, RAMs, CAMs, counters, arbiters, linked lists and pipelines,
and the shared `VStructs.h`, are not generated here.

## Layout

- `src/ast.rs` — the syntax tree and global symbols the generator reads.
- `src/const_eval.rs`, `src/infer.rs` — constant folding, widths,
  signedness and float formats of expressions.
- `src/lowering.rs`, `src/cpp_text.rs`, `src/cpp_expr.rs` — expression
  lowering to C++ (specification, formatting pieces, and the lowering).
- `src/ctx.rs`, `src/collect.rs`, `src/walk.rs` — the naming context and
  the name sets collected from module bodies and statements.
- `src/functions.rs` — `VFunctions.h`: hoisted functions and parameter
  `#define`s.
- `src/pybind.rs` — pybind11 wrappers of module models.
- `src/pipeline.rs`, `src/pipe_stage.rs` — pipeline stage logic and the
  state machine of stages that wait.
- `src/arbiter.rs`, `src/arbiter_port.rs` — the grant logic of custom-policy
  arbiters, and the flat names of their port-array ports.
- `src/clkgate.rs` — clock-gate models.
- `src/debug_set.rs` — the modules instrumented under `--debug`.
- `src/lookup.rs`, `src/vob.rs` — lookups of instantiated constructs,
  struct fields and functions; Vec-of-bus indexing checks.
- `src/verilated.rs` — the `verilated.h` / `verilated.cpp` stubs.
- `src/source_map.rs` — offsets to `file:line`, and coverage points.
- `src/laws.rs` — properties that span several functions.
- `app/` — float-typed parameter values (floating point stays outside the
  verified library).
- `tests/` — tests of the library on concrete inputs.
