//! Parts of a native C++ simulation-model generator for the ARCH hardware
//! description language, with their contracts proved by Verus.
//!
//! The library emits the shared `VFunctions.h` header, the clock-gate
//! models, the `verilated.h` / `verilated.cpp` prelude and the pybind11
//! wrappers, and it lowers ARCH expressions, pipeline-stage statements and
//! custom arbiter grant logic to C++ text. It also computes the source map,
//! the set of modules to instrument under `--debug`, and the lookups that
//! the construct emitters use. Models of modules, FSMs, FIFOs, RAMs, CAMs,
//! counters, arbiters, linked lists and pipelines are not emitted here.
pub mod ast;
pub mod text;
pub mod names;
pub mod const_eval;
pub mod cpp_fmt;
pub mod expr_codegen;
pub mod types;
pub mod collect;
pub mod walk;
pub mod source_map;
pub mod verilated;
pub mod ctx;
pub mod infer;
pub mod lowering;
pub mod cpp_text;
pub mod cpp_expr;
pub mod sim;
pub mod functions;
pub mod laws;
pub mod meaning_laws;
pub mod pybind;
pub mod clkgate;
pub mod pipeline;
pub mod pipe_stage;
pub mod vob;
pub mod lookup;
pub mod arbiter;
pub mod arbiter_port;
pub mod debug_set;
