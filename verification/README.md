# rustminidb

A lightweight embedded relational database: SQL statements over tables
stored by a pluggable storage engine, an HTTP API, an interactive shell and
SQL export in several dialects.

- `src/` is the library, written in Verus. Every function carries a
  contract over mathematical models (`Seq`, `Map`, views of the data types),
  and the proofs are checked by Verus. The main parts:
  - `sql/` — reading SQL text with sqlparser (`front`), conversion of what
    it reads into statements (`parser`), query
    planning (`planner`), conditions, sorting, projection and paging
    (`predicate`, `rows`), aggregation, the executor and its outcome
    specifications (`executor`, `eval`), the check that a statement reads
    only columns that stored rows hold (`guard`), and laws about reads after
    writes (`read_write`) and the value ordering (`laws`).
  - `storage/` — the `StorageEngine` trait and its model of tables as
    entries keyed by primary-key value.
  - `database.rs` — the embedded entry point.
  - `migration.rs` — SQL export (dialects, batching) and import.
  - `monitor.rs`, `banner.rs`, `cli.rs`, `watcher.rs`, `server/` — counters,
    terminal text, shell commands, file-change debouncing and the HTTP API's
    decisions.
- `app/` is the program around it: the redb storage engine, the axum
  server, file watching with notify, and the command line.
- `tests/` runs the library on concrete values.
