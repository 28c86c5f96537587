# cyan

The core of a desktop coding agent, written in Verus. The functions in
`src/` carry contracts that Verus proves, except the calls into outside
crates in `src/support/` (and `String::push` in `src/text.rs`): their
contracts restate what those crates document and are believed, not proved.

- `src/domain/` — agent runs and the permission engine, configuration
  (models, MCP servers, permission rules), projects and path confinement,
  sessions and messages, plugins, skills.
- `src/infra/` — the logic behind the adapters: the MCP JSON-RPC and SSE
  framing and dispatch, the streaming chat protocol, skill files, plugin
  packages and markets, file-tree and search rules, program lookup, stored
  rows and their conversion.
- `src/support/` — the calls into outside crates (globset, regex, chrono,
  serde_json, reqwest's URL, std's paths), each with the contract the library
  relies on.
- `src/text.rs` — verified text helpers over `Seq<char>`.
- `app/` — the I/O around the library (SQLite, files, processes, git, HTTP,
  child processes, desktop capture), in ordinary Rust.
- `tests/` — tests of the library.

Laws the library states and proves (for example that the permission engine
checks its built-in denials first, that a serialized skill parses back to
the same fields, that the MCP event-stream parser gives the same events
however its input is cut) stand as public proof functions next to the
functions they are about.
