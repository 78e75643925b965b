# ffi-guard

A Rust FFI safety auditor: it parses Rust sources with tree-sitter, finds
`extern` functions, `unsafe` blocks and `#[repr(C)]` structs, and reports
what tends to go wrong across C/C++ boundaries (missing `unsafe`, unchecked
raw-pointer returns and dereferences, panics that can unwind into C,
`#[repr(C)]` layouts that disagree with the C headers, ...).

The library is written in Verus. Every check states in its contract exactly
which findings it reports. The scanner states how a report is assembled from
the facts read out of each file's syntax tree; that tree is the one tree-sitter
builds, and the contracts say of it only that it is a well-formed tree of the
file's bytes.

## Layout

- `src/` — the verified library.
  - `text.rs` — character-level text operations (lines, trimming, words,
    search, decimal numbers) with their specifications.
  - `syntax.rs` — the syntax tree as a flat, well-formed arena, built from
    tree-sitter's tree.
  - `scanner.rs` — reading `extern` functions, `unsafe` blocks and
    `#[repr(C)]` structs out of a syntax tree, running the checks on a file,
    and building a project report.
  - `checks/` — one module per check; `repr_c_layout.rs` also reads struct
    definitions out of C headers.
  - `report.rs` — findings and the report with its counters.
  - `laws.rs` — properties that hold for every input: the severity of each
    check, where findings are placed, and the layout checks' behaviour.
  - `mcp.rs`, `trophy.rs` — the decisions of the MCP server and of the
    crates.io trophy hunter.
- `app/` — the command line (`scan`, `trophy`, `mcp`, `checks`), file-system
  walking, JSON output, the MCP server loop and downloading crates.
- `tests/` — tests of the library on concrete inputs.
