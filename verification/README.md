# ducklake-orm

A small ORM for DuckDB / DuckLake databases whose statement construction,
identifier safety, configuration checks and migration planning are written in
Verus and proved against their specifications.

## Layout

- `src/` — the verified library.
  - `text.rs`, `sql.rs` — exact string building; SQL text modelled as literal
    pieces and numbered `$n` placeholders.
  - `ident.rs` — identifier validation and string-literal escaping, with the
    laws that make interpolation safe.
  - `query/` — the filter/ordering DSL and the SELECT, INSERT, UPDATE and
    DELETE builders and the bulk-insert transaction protocol; every builder states the text it renders and proves that
    its placeholders are numbered `$1..$n`, one per bound value.
  - `config.rs`, `connection.rs` — configuration validation and the
    statements that prepare a connection (extension load, catalog attach).
  - `migration/` — migration values, the plans of `run`, `rollback` and
    `status`, migration file naming and directory grouping, the tracking
    table statements, and the per-step transaction protocol.
  - `naming.rs`, `mapping.rs` — table metadata of a mapped struct: snake-case
    table names, `rename_all`, per-field `column`, `skip_insert` and `skip`.
  - `cli.rs` — the `ducklake-cli` command line.
- `tests/` — executable tests of the library.
- `app/` — the runtime around the library: DuckDB connections and pools,
  the typed query façade, TOML configuration files, the migration runner and
  the command-line entry point.
