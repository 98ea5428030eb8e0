# localsearch

The core of a local file search: a filesystem graph with its catalog projection, a change
provider for NTFS volumes, a resource governor, substring retrieval and ranking, and the
protocols by which the parts talk to each other. The library is written in Verus: the functions in
`src/` are verified against their contracts, and the few that wrap a call into another crate say
what they trust of it.

- `src/graph` – volumes, objects, links, derived paths, desired documents, the outbox and its
  consumers. `graph/model.rs` and its siblings hold the mathematical model, `graph/store` the
  tables that implement it, `graph/laws.rs` what holds across operations.
- `src/search` – normalization, query policy, retrieval, ranking and the benchmark reports.
- `src/windows` – identities, checkpoints, journal records and directory scans.
- `src/governor.rs` – how much background work may run.
- `src/broker.rs`, `src/transport.rs`, `src/mcp` – requests, frames and the MCP adapter.
- `src/fixture.rs`, `src/command.rs` – decisions of the test fixture and the command lines.
- `app/` – the programs around the library: SQLite, Tantivy, named pipes, threads and files.
- `tests/` – scenarios on concrete values.
