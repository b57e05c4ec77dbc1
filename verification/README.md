# gic_core

Core library of the GIC infrastructure editor, written in Verus. Verus checks
every function in `src/` against its contract; the few functions marked
`#[verifier::external_body]` wrap calls into std (hashing, the clock, paths,
Unicode character classes and case mapping), and their contracts are assumed
rather than proved.

- `src/buffer/` — the text buffer: line storage, cursor movement, selections,
  clipboard, and command-based undo/redo. `model.rs` states each operation as a
  function on a mathematical model of the buffer; `laws.rs` proves what undo and
  redo give back of an edit.
- `src/diagnostics/` — diagnostics with positions, ranges and quick fixes, rules
  and validators with their registries, a per-document result cache, formatters,
  and the validation engine.
- `src/docker/` — the Dockerfile parser, multi-stage, security, best-practice and
  layer checks, Docker Compose documents and their checks, and the Docker engine
  with its least-recently-used result cache.
- `src/yaml.rs`, `src/parser.rs` — the YAML values and syntax trees the checks
  read.
- `src/cli.rs`, `src/config.rs`, `src/error.rs` — command line options, the
  configuration and the application's errors.

`app/` holds the command line program around the library: argument and file
reading, the TOML configuration loader and the JSON formatter (both through
serde), and the terminal engine's render state.
