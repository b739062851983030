# rust_analyzer_mcp

The logic of a Model Context Protocol server for rust-analyzer, as a Verus library: every
function in `src/` carries a contract, and Verus proves each body against it.

- `src/blast.rs` — the blast radius of a symbol: which references are production code and which
  are tests (by the spans rust-analyzer offers to run, not by file names), the item or test that
  holds each, and the assembled answer. Laws about the answer (every reference lands in exactly
  one place, `complete` exactly when nothing went unclassified, the innermost span wins) are
  proof functions beside the code.
- `src/json.rs` — the JSON values the library works on, with a view that contracts speak of,
  and the laws of reading a member back after setting it.
- `src/text.rs` — character-level text operations (white space, trimming, lines, joining,
  decimal numerals), each stated over the characters of its input.
- `src/mcp/tools.rs` — the tools the server lists, their schemas and annotations, with the laws
  that every tool is annotated, every annotation names a tool, and only `set_workspace` writes.
- `src/protocol/mcp.rs` — the protocol messages as plain data.
- `src/blast_fixture.rs` — the small fixture whose symbol the blast radius is measured on.

`app/` holds what the library leaves to ordinary Rust: conversion between `serde_json` values
and the library's JSON, the protocol messages with their serde derives, and the version line
as the build environment gives it.
