# chaindexing (verified core)

The decision-making and SQL-building core of an EVM event indexer, written in Verus:
every function in `src/` carries a contract and is proved against it.

## Layout

- `src/text.rs`, `src/char_seq.rs`: decimal rendering, SQL quoting, joining, and the
  `str` operations (contains, count, replace, split, trim) the migrations rely on.
- `src/field_map.rs`: the ordered, unique-keyed field maps that states, filters and
  updates are made of.
- `src/states.rs`, `src/state_versions.rs`, `src/contract_states.rs`: filters,
  updates, state versions and state views, and the SQL that reads and writes them.
- `src/state_migrations.rs`: expansion of a state's migrations into view, version,
  column-addition and unique-index migrations (SQL parsed and printed by `sqlparser`).
- `src/ingestion.rs`: which blocks a batch needs, block selection, retry and backoff,
  finality targets, request batching, the filters of main and confirmation runs,
  already-ingested filters, the decision about a fetched batch, ingestion cursors.
- `src/chain_reorg.rs`, `src/events.rs`: reorg detection and repair plans, the
  confirmation window.
- `src/outbox.rs`: durable outbox jobs, leases, retries and dead-lettering.
- `src/nodes.rs`, `src/root.rs`: leader election, node task orchestration,
  heartbeats, root reset state; `src/reset_counts.rs`: the count of resets.
- `src/repo.rs`, `src/repo_migrations.rs`, `src/raw_queries.rs`: migrations of the
  internal tables, repository queries, contract-address streaming.
- `src/runtime_config.rs`, `src/pruning.rs`, `src/inspection.rs`,
  `src/local_backend.rs`, `src/tls.rs`: runtime profiles, pruning windows, read-only
  inspection queries, the SQLite prototype, and Postgres TLS settings.
- `src/errors.rs`: the provider, ingester, repository and indexer errors.
- `app/`: `Display` for the errors, JSON row conversion, the clock, random group ids,
  and the drivers that run the library's decisions: the main and confirmation
  ingestion runs, the outbox dispatcher and the node loop.
- `tests/`: behaviour on concrete inputs.
