# rr

The core of the RR-to-R compiler, written in Verus: each function carries a
contract over a mathematical model of its data, and Verus proves it.

Layout of `src/`:

- `syntax/ast.rs` — the RR syntax tree and its mathematical view.
- `legacy/ir/` — the legacy tree IR (`mod.rs`) and its loop optimizer
  (`optimize.rs`): element-wise map and reduction loops over `indices(x)`
  become vector operations, other such loops count from 1.
- `ir/lower.rs` — lowering from the syntax tree to the legacy IR, with the
  diagnostics it reports; `ir/analyze.rs` — type, shape and fact inference.
- `legacy/codegen/` — the R emitter (`emit.rs`) with its source map, and the
  R text of expressions (`rtext.rs`).
- `mir/` — the MIR data model (`def.rs`, `flow.rs`) and the side-effect
  analysis (`analyze/effects.rs`).
- `compiler/pipeline.rs` — optimization levels, the command-line log's
  styling and messages, module loading, and the linking of the final R file.
- `error.rs`, `utils.rs`, `text.rs` — diagnostics, source spans, and string
  helpers.

`app/` holds what touches the process: the environment, the terminal,
files, clocks, and the printing of the log lines the library builds.
