# ir-assert

IR-level assertions for Rust tests: compile a function to LLVM IR and check
properties of it — the number of basic blocks, calls, instructions, allocas,
branches and phi nodes, per block or for the whole function, whether a panic
is reachable — optionally per toolchain, target and optimization level.

## Layout

- `src/` — the library, verified with Verus.
  - `text` — character-level string primitives (search, trim, lines, words).
  - `ir` — the LLVM IR parser and per-function / per-block counts.
  - `env` — build environments and how they combine under `&` and `|`.
  - `predicate` — the predicate language (`basic_blocks.len().eq(1) & calls.len().eq(0)`,
    quantifiers over blocks, `no_panic`, `debug`) and its evaluation.
  - `locate` — the container function's references, build directories, the IR file
    among a build's outputs.
  - `command` — the `cargo rustc` command lines that produce the IR.
  - `assertion` — the verdict of one assertion over all environments' builds.
  - `invocation` — what the macros read from the compiler's command line and
    their argument checks.
- `app/` — process spawning, file reading, the per-process IR cache, and the
  macro expansion on syntax trees; all decisions are delegated to the library.
- `tests/` — tests of the library on concrete inputs.

Each public function states its result in its `ensures` over spec functions;
the laws relating several functions (e.g. that `&` on environments commutes,
that `!p` holds exactly when `p` fails, that a reported panic chain is a real
call path) are public proof functions named `law_*`.
