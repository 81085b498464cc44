//! Experimental local backend prototypes.
//!
//! These APIs document and exercise local-backend behavior without making SQLite
//! a supported runtime backend. Postgres remains the production backend.
use vstd::prelude::*;
use crate::text::{
    decimal, decimal_signed, push_decimal, push_decimal_signed, push_sql_literal, push_str,
    sql_literal,
};

verus! {

#[derive(Debug, Clone, Copy, Eq, PartialEq, Structural)]
pub enum LocalBackendGuarantee {
    InternalSchema,
    AtomicIngestionBatch,
    ReorgStatusTransitions,
    IdentityIdempotency,
    OrderedHandlerReads,
    OutboxLeasing,
    ReadOnlyInspection,
}

#[derive(Debug, Clone, Copy, Eq, PartialEq, Structural)]
pub enum PrototypeStatus {
    ProvedInPrototype,
    ScopedForPrototype,
    NotYetProved,
}

#[derive(Debug, Clone, Eq, PartialEq)]
pub struct PrototypeGuarantee {
    pub guarantee: LocalBackendGuarantee,
    pub status: PrototypeStatus,
    pub notes: &'static str,
}

#[derive(Debug, Clone, Eq, PartialEq)]
pub struct LocalBackendPrototypeReport {
    pub backend: &'static str,
    pub guarantees: Vec<PrototypeGuarantee>,
}

pub struct SqlitePrototype;

/// What the SQLite prototype has shown of each local-backend guarantee, with notes.
pub open spec fn sqlite_guarantees() -> Seq<(LocalBackendGuarantee, PrototypeStatus, Seq<char>)> {
    seq![
        (LocalBackendGuarantee::InternalSchema, PrototypeStatus::ProvedInPrototype, "the prototype schema creates each internal table with SQLite-compatible types"@),
        (LocalBackendGuarantee::AtomicIngestionBatch, PrototypeStatus::ProvedInPrototype, "SQLite transactions roll back mixed block, scan, event, transaction, trace, and checkpoint writes"@),
        (LocalBackendGuarantee::ReorgStatusTransitions, PrototypeStatus::ProvedInPrototype, "prototype reorg statements mark canonical blocks, scans, events, transactions, and traces consistently"@),
        (LocalBackendGuarantee::IdentityIdempotency, PrototypeStatus::ProvedInPrototype, "prototype schema carries the same internal identity keys used by the Postgres backend"@),
        (LocalBackendGuarantee::OrderedHandlerReads, PrototypeStatus::ScopedForPrototype, "query shape is defined, but full state replay still needs a SQLite repo implementation"@),
        (LocalBackendGuarantee::OutboxLeasing, PrototypeStatus::ScopedForPrototype, "single-writer lease behavior is modeled; multi-process contention still needs stress testing"@),
        (LocalBackendGuarantee::ReadOnlyInspection, PrototypeStatus::ProvedInPrototype, "inspection queries use portable status-scoped SELECTs over the internal tables"@),
    ]
}

/// The guarantee entries' abstract values.
pub open spec fn guarantees_view(v: Seq<PrototypeGuarantee>) -> Seq<(LocalBackendGuarantee, PrototypeStatus, Seq<char>)> {
    v.map_values(|g: PrototypeGuarantee| (g.guarantee, g.status, g.notes@))
}

fn sqlite_guarantee_list() -> (guarantees: Vec<PrototypeGuarantee>)
    ensures
        guarantees_view(guarantees@) == sqlite_guarantees(),
{
    let mut guarantees: Vec<PrototypeGuarantee> = Vec::new();
    guarantees.push(PrototypeGuarantee {
        guarantee: LocalBackendGuarantee::InternalSchema,
        status: PrototypeStatus::ProvedInPrototype,
        notes: "the prototype schema creates each internal table with SQLite-compatible types",
    });
    guarantees.push(PrototypeGuarantee {
        guarantee: LocalBackendGuarantee::AtomicIngestionBatch,
        status: PrototypeStatus::ProvedInPrototype,
        notes: "SQLite transactions roll back mixed block, scan, event, transaction, trace, and checkpoint writes",
    });
    guarantees.push(PrototypeGuarantee {
        guarantee: LocalBackendGuarantee::ReorgStatusTransitions,
        status: PrototypeStatus::ProvedInPrototype,
        notes: "prototype reorg statements mark canonical blocks, scans, events, transactions, and traces consistently",
    });
    guarantees.push(PrototypeGuarantee {
        guarantee: LocalBackendGuarantee::IdentityIdempotency,
        status: PrototypeStatus::ProvedInPrototype,
        notes: "prototype schema carries the same internal identity keys used by the Postgres backend",
    });
    guarantees.push(PrototypeGuarantee {
        guarantee: LocalBackendGuarantee::OrderedHandlerReads,
        status: PrototypeStatus::ScopedForPrototype,
        notes: "query shape is defined, but full state replay still needs a SQLite repo implementation",
    });
    guarantees.push(PrototypeGuarantee {
        guarantee: LocalBackendGuarantee::OutboxLeasing,
        status: PrototypeStatus::ScopedForPrototype,
        notes: "single-writer lease behavior is modeled; multi-process contention still needs stress testing",
    });
    guarantees.push(PrototypeGuarantee {
        guarantee: LocalBackendGuarantee::ReadOnlyInspection,
        status: PrototypeStatus::ProvedInPrototype,
        notes: "inspection queries use portable status-scoped SELECTs over the internal tables",
    });
    assert(guarantees_view(guarantees@) =~= sqlite_guarantees());
    guarantees
}

/// The internal schema of the SQLite prototype.
pub const SQLITE_INTERNAL_MIGRATIONS: [&'static str; 31] = [
            "CREATE TABLE IF NOT EXISTS chaindexing_root_states (
                id INTEGER PRIMARY KEY AUTOINCREMENT,
                reset_count INTEGER NOT NULL,
                reset_including_side_effects_count INTEGER NOT NULL
            )",
            "CREATE TABLE IF NOT EXISTS chaindexing_nodes (
                id INTEGER PRIMARY KEY AUTOINCREMENT,
                last_active_at INTEGER DEFAULT (strftime('%s','now')),
                inserted_at INTEGER DEFAULT (strftime('%s','now'))
            )",
            "CREATE TABLE IF NOT EXISTS chaindexing_contract_addresses (
                id INTEGER PRIMARY KEY AUTOINCREMENT,
                address TEXT NOT NULL,
                contract_name TEXT NOT NULL,
                chain_id INTEGER NOT NULL,
                start_block_number INTEGER NOT NULL,
                next_block_number_to_ingest_from INTEGER NOT NULL,
                next_block_number_to_handle_from INTEGER NOT NULL,
                next_block_number_for_side_effects INTEGER DEFAULT 0
            )",
            "CREATE UNIQUE INDEX IF NOT EXISTS chaindexing_contract_addresses_chain_address_index
                ON chaindexing_contract_addresses(chain_id, address)",
            "CREATE TABLE IF NOT EXISTS chaindexing_events (
                id TEXT PRIMARY KEY,
                chain_id INTEGER NOT NULL,
                contract_address TEXT NOT NULL,
                contract_name TEXT NOT NULL,
                abi TEXT NOT NULL,
                parameters TEXT NOT NULL,
                topics TEXT NOT NULL,
                block_hash TEXT NOT NULL,
                block_number INTEGER NOT NULL,
                block_timestamp INTEGER NOT NULL,
                transaction_hash TEXT NOT NULL,
                transaction_index INTEGER NOT NULL,
                log_index INTEGER NOT NULL,
                removed INTEGER NOT NULL,
                status TEXT NOT NULL DEFAULT 'canonical',
                reorg_id INTEGER,
                inserted_at TEXT NOT NULL DEFAULT CURRENT_TIMESTAMP
            )",
            "CREATE INDEX IF NOT EXISTS chaindexing_events_chain_contract_block_log_index
                ON chaindexing_events(chain_id, contract_address, block_number, log_index)",
            "CREATE INDEX IF NOT EXISTS chaindexing_events_abi
                ON chaindexing_events(abi)",
            "CREATE INDEX IF NOT EXISTS chaindexing_events_canonical_lookup
                ON chaindexing_events(chain_id, contract_address, block_number, transaction_index, log_index)
                WHERE status = 'canonical'",
            "CREATE UNIQUE INDEX IF NOT EXISTS chaindexing_events_identity
                ON chaindexing_events(chain_id, contract_address, block_hash, transaction_hash, log_index)",
            "CREATE TABLE IF NOT EXISTS chaindexing_reorged_blocks (
                id INTEGER PRIMARY KEY AUTOINCREMENT,
                chain_id INTEGER NOT NULL,
                block_number INTEGER NOT NULL,
                handled_at INTEGER,
                inserted_at TEXT NOT NULL DEFAULT CURRENT_TIMESTAMP
            )",
            "CREATE TABLE IF NOT EXISTS chaindexing_blocks (
                id INTEGER PRIMARY KEY AUTOINCREMENT,
                chain_id INTEGER NOT NULL,
                block_number INTEGER NOT NULL,
                block_hash TEXT NOT NULL,
                parent_hash TEXT NOT NULL,
                block_timestamp INTEGER NOT NULL DEFAULT 0,
                status TEXT NOT NULL,
                inserted_at TEXT NOT NULL DEFAULT CURRENT_TIMESTAMP
            )",
            "CREATE UNIQUE INDEX IF NOT EXISTS chaindexing_blocks_identity
                ON chaindexing_blocks(chain_id, block_number, block_hash)",
            "CREATE UNIQUE INDEX IF NOT EXISTS chaindexing_blocks_canonical_number
                ON chaindexing_blocks(chain_id, block_number)
                WHERE status = 'canonical'",
            "CREATE TABLE IF NOT EXISTS chaindexing_transactions (
                id INTEGER PRIMARY KEY AUTOINCREMENT,
                chain_id INTEGER NOT NULL,
                block_number INTEGER NOT NULL,
                block_hash TEXT NOT NULL,
                block_timestamp INTEGER NOT NULL DEFAULT 0,
                transaction_hash TEXT NOT NULL,
                transaction_index INTEGER NOT NULL,
                from_address TEXT NOT NULL,
                to_address TEXT,
                value TEXT NOT NULL,
                input TEXT NOT NULL,
                raw TEXT NOT NULL,
                status TEXT NOT NULL DEFAULT 'canonical',
                reorg_id INTEGER,
                inserted_at TEXT NOT NULL DEFAULT CURRENT_TIMESTAMP
            )",
            "CREATE UNIQUE INDEX IF NOT EXISTS chaindexing_transactions_identity
                ON chaindexing_transactions(chain_id, block_hash, transaction_hash)",
            "CREATE INDEX IF NOT EXISTS chaindexing_transactions_canonical_lookup
                ON chaindexing_transactions(chain_id, block_number, transaction_index)
                WHERE status = 'canonical'",
            "CREATE INDEX IF NOT EXISTS chaindexing_transactions_sender_lookup
                ON chaindexing_transactions(chain_id, from_address, block_number)
                WHERE status = 'canonical'",
            "CREATE TABLE IF NOT EXISTS chaindexing_call_traces (
                id INTEGER PRIMARY KEY AUTOINCREMENT,
                chain_id INTEGER NOT NULL,
                block_number INTEGER NOT NULL,
                block_hash TEXT NOT NULL,
                transaction_hash TEXT NOT NULL DEFAULT '',
                trace_index INTEGER NOT NULL,
                trace_address TEXT NOT NULL,
                call_type TEXT,
                from_address TEXT,
                to_address TEXT,
                value TEXT,
                input TEXT,
                output TEXT,
                error TEXT,
                raw TEXT NOT NULL,
                status TEXT NOT NULL DEFAULT 'canonical',
                reorg_id INTEGER,
                inserted_at TEXT NOT NULL DEFAULT CURRENT_TIMESTAMP
            )",
            "CREATE UNIQUE INDEX IF NOT EXISTS chaindexing_call_traces_identity
                ON chaindexing_call_traces(chain_id, block_hash, transaction_hash, trace_address, trace_index)",
            "CREATE INDEX IF NOT EXISTS chaindexing_call_traces_canonical_lookup
                ON chaindexing_call_traces(chain_id, block_number, transaction_hash, trace_index)
                WHERE status = 'canonical'",
            "CREATE INDEX IF NOT EXISTS chaindexing_call_traces_address_lookup
                ON chaindexing_call_traces(chain_id, from_address, to_address, block_number)
                WHERE status = 'canonical'",
            "CREATE TABLE IF NOT EXISTS chaindexing_block_scans (
                id INTEGER PRIMARY KEY AUTOINCREMENT,
                chain_id INTEGER NOT NULL,
                block_hash TEXT NOT NULL,
                contract_address TEXT NOT NULL,
                topic_set_hash TEXT NOT NULL,
                log_count INTEGER NOT NULL,
                status TEXT NOT NULL DEFAULT 'canonical',
                reorg_id INTEGER,
                scanned_at TEXT NOT NULL DEFAULT CURRENT_TIMESTAMP
            )",
            "CREATE UNIQUE INDEX IF NOT EXISTS chaindexing_block_scans_identity
                ON chaindexing_block_scans(chain_id, block_hash, contract_address, topic_set_hash)",
            "CREATE INDEX IF NOT EXISTS chaindexing_block_scans_canonical
                ON chaindexing_block_scans(chain_id, contract_address, block_hash)
                WHERE status = 'canonical'",
            "CREATE TABLE IF NOT EXISTS chaindexing_reorgs (
                id INTEGER PRIMARY KEY AUTOINCREMENT,
                chain_id INTEGER NOT NULL,
                common_ancestor_number INTEGER NOT NULL,
                common_ancestor_hash TEXT NOT NULL,
                fork_block_number INTEGER NOT NULL,
                old_tip_number INTEGER NOT NULL,
                new_tip_number INTEGER NOT NULL,
                depth INTEGER NOT NULL,
                status TEXT NOT NULL DEFAULT 'repairing',
                inserted_at TEXT NOT NULL DEFAULT CURRENT_TIMESTAMP,
                repaired_at TEXT
            )",
            "CREATE TABLE IF NOT EXISTS chaindexing_checkpoints (
                id INTEGER PRIMARY KEY AUTOINCREMENT,
                chain_id INTEGER NOT NULL,
                contract_address TEXT NOT NULL DEFAULT '',
                handler_kind TEXT NOT NULL,
                handler_id TEXT NOT NULL,
                next_block_number INTEGER NOT NULL,
                updated_at TEXT NOT NULL DEFAULT CURRENT_TIMESTAMP
            )",
            "CREATE UNIQUE INDEX IF NOT EXISTS chaindexing_checkpoints_identity
                ON chaindexing_checkpoints(chain_id, contract_address, handler_kind, handler_id)",
            "CREATE TABLE IF NOT EXISTS chaindexing_outbox (
                id INTEGER PRIMARY KEY AUTOINCREMENT,
                idempotency_key TEXT NOT NULL,
                chain_id INTEGER NOT NULL,
                contract_address TEXT NOT NULL,
                event_id TEXT NOT NULL,
                source_block_hash TEXT NOT NULL DEFAULT '',
                source_block_number INTEGER NOT NULL DEFAULT 0,
                required_finality TEXT NOT NULL DEFAULT 'latest',
                handler_id TEXT NOT NULL,
                payload TEXT NOT NULL,
                status TEXT NOT NULL,
                attempt_count INTEGER NOT NULL DEFAULT 0,
                last_error TEXT,
                next_attempt_at TEXT,
                lease_expires_at TEXT,
                lease_token TEXT,
                inserted_at TEXT NOT NULL DEFAULT CURRENT_TIMESTAMP,
                updated_at TEXT NOT NULL DEFAULT CURRENT_TIMESTAMP
            )",
            "CREATE UNIQUE INDEX IF NOT EXISTS chaindexing_outbox_idempotency_key
                ON chaindexing_outbox(idempotency_key)",
            "CREATE INDEX IF NOT EXISTS chaindexing_outbox_status_next_attempt_at
                ON chaindexing_outbox(status, next_attempt_at)",
            "CREATE INDEX IF NOT EXISTS chaindexing_outbox_status_lease_expires_at
                ON chaindexing_outbox(status, lease_expires_at)",
];

/// The statement marking canonical `chaindexing_blocks` rows of a chain from the fork block on as reorged.
pub open spec fn mark_reorged_blocks_sql(chain_id: u64, fork_block_number: u64, reorg_id: i64) -> Seq<char> {
    "UPDATE chaindexing_blocks\n                 SET status = 'reorged'\n                 WHERE chain_id = "@
        + decimal_signed((chain_id as i64) as int)
        + "\n                   AND block_number >= "@
        + decimal_signed((fork_block_number as i64) as int)
        + "\n                   AND status = 'canonical'"@
}

/// The statement marking canonical `chaindexing_events` rows of a chain from the fork block on as reorged.
pub open spec fn mark_reorged_events_sql(chain_id: u64, fork_block_number: u64, reorg_id: i64) -> Seq<char> {
    "UPDATE chaindexing_events\n                 SET status = 'reorged', reorg_id = "@
        + decimal_signed(reorg_id as int)
        + "\n                 WHERE chain_id = "@
        + decimal_signed((chain_id as i64) as int)
        + "\n                   AND block_number >= "@
        + decimal_signed((fork_block_number as i64) as int)
        + "\n                   AND status = 'canonical'"@
}

/// The statement marking canonical `chaindexing_transactions` rows of a chain from the fork block on as reorged.
pub open spec fn mark_reorged_transactions_sql(chain_id: u64, fork_block_number: u64, reorg_id: i64) -> Seq<char> {
    "UPDATE chaindexing_transactions\n                 SET status = 'reorged', reorg_id = "@
        + decimal_signed(reorg_id as int)
        + "\n                 WHERE chain_id = "@
        + decimal_signed((chain_id as i64) as int)
        + "\n                   AND block_number >= "@
        + decimal_signed((fork_block_number as i64) as int)
        + "\n                   AND status = 'canonical'"@
}

/// The statement marking canonical `chaindexing_call_traces` rows of a chain from the fork block on as reorged.
pub open spec fn mark_reorged_call_traces_sql(chain_id: u64, fork_block_number: u64, reorg_id: i64) -> Seq<char> {
    "UPDATE chaindexing_call_traces\n                 SET status = 'reorged', reorg_id = "@
        + decimal_signed(reorg_id as int)
        + "\n                 WHERE chain_id = "@
        + decimal_signed((chain_id as i64) as int)
        + "\n                   AND block_number >= "@
        + decimal_signed((fork_block_number as i64) as int)
        + "\n                   AND status = 'canonical'"@
}

/// The statement marking canonical `chaindexing_block_scans` rows of a chain from the fork block on as reorged.
pub open spec fn mark_reorged_block_scans_sql(chain_id: u64, fork_block_number: u64, reorg_id: i64) -> Seq<char> {
    "UPDATE chaindexing_block_scans\n                 SET status = 'reorged', reorg_id = "@
        + decimal_signed(reorg_id as int)
        + "\n                 WHERE chain_id = "@
        + decimal_signed((chain_id as i64) as int)
        + "\n                   AND block_hash IN (\n                       SELECT block_hash\n                       FROM chaindexing_blocks\n                       WHERE chain_id = "@
        + decimal_signed((chain_id as i64) as int)
        + "\n                         AND block_number >= "@
        + decimal_signed((fork_block_number as i64) as int)
        + "\n                   )\n                   AND status = 'canonical'"@
}

/// The statement leasing up to `limit` (at least one) due pending outbox jobs, oldest first,
/// under `lease_token` for `lease_seconds` seconds.
pub open spec fn sqlite_lease_pending_outbox_jobs_sql(
    limit: u32,
    lease_token: Seq<char>,
    lease_seconds: u32,
) -> Seq<char> {
    "UPDATE chaindexing_outbox\n             SET status = 'dispatching',\n                 attempt_count = attempt_count + 1,\n                 lease_token = "@
        + sql_literal(lease_token)
        + ",\n                 lease_expires_at = datetime('now', '+"@
        + decimal(lease_seconds as nat)
        + " seconds'),\n                 updated_at = CURRENT_TIMESTAMP\n             WHERE id IN (\n                 SELECT id\n                 FROM chaindexing_outbox\n                 WHERE status = 'pending'\n                   AND (next_attempt_at IS NULL OR next_attempt_at <= CURRENT_TIMESTAMP)\n                 ORDER BY inserted_at ASC, id ASC\n                 LIMIT "@
        + decimal((if limit == 0 { 1 } else { limit }) as nat)
        + "\n             )\n             RETURNING id, idempotency_key, attempt_count, lease_token"@
}

fn mark_reorged_blocks(chain_id: u64, fork_block_number: u64, reorg_id: i64) -> (sql: String)
    ensures
        sql@ == mark_reorged_blocks_sql(chain_id, fork_block_number, reorg_id),
{
    let mut sql = String::new();
    push_str(&mut sql, "UPDATE chaindexing_blocks\n                 SET status = 'reorged'\n                 WHERE chain_id = ");
    push_decimal_signed(&mut sql, chain_id as i64);
    push_str(&mut sql, "\n                   AND block_number >= ");
    push_decimal_signed(&mut sql, fork_block_number as i64);
    push_str(&mut sql, "\n                   AND status = 'canonical'");
    sql
}

fn mark_reorged_events(chain_id: u64, fork_block_number: u64, reorg_id: i64) -> (sql: String)
    ensures
        sql@ == mark_reorged_events_sql(chain_id, fork_block_number, reorg_id),
{
    let mut sql = String::new();
    push_str(&mut sql, "UPDATE chaindexing_events\n                 SET status = 'reorged', reorg_id = ");
    push_decimal_signed(&mut sql, reorg_id);
    push_str(&mut sql, "\n                 WHERE chain_id = ");
    push_decimal_signed(&mut sql, chain_id as i64);
    push_str(&mut sql, "\n                   AND block_number >= ");
    push_decimal_signed(&mut sql, fork_block_number as i64);
    push_str(&mut sql, "\n                   AND status = 'canonical'");
    sql
}

fn mark_reorged_transactions(chain_id: u64, fork_block_number: u64, reorg_id: i64) -> (sql: String)
    ensures
        sql@ == mark_reorged_transactions_sql(chain_id, fork_block_number, reorg_id),
{
    let mut sql = String::new();
    push_str(&mut sql, "UPDATE chaindexing_transactions\n                 SET status = 'reorged', reorg_id = ");
    push_decimal_signed(&mut sql, reorg_id);
    push_str(&mut sql, "\n                 WHERE chain_id = ");
    push_decimal_signed(&mut sql, chain_id as i64);
    push_str(&mut sql, "\n                   AND block_number >= ");
    push_decimal_signed(&mut sql, fork_block_number as i64);
    push_str(&mut sql, "\n                   AND status = 'canonical'");
    sql
}

fn mark_reorged_call_traces(chain_id: u64, fork_block_number: u64, reorg_id: i64) -> (sql: String)
    ensures
        sql@ == mark_reorged_call_traces_sql(chain_id, fork_block_number, reorg_id),
{
    let mut sql = String::new();
    push_str(&mut sql, "UPDATE chaindexing_call_traces\n                 SET status = 'reorged', reorg_id = ");
    push_decimal_signed(&mut sql, reorg_id);
    push_str(&mut sql, "\n                 WHERE chain_id = ");
    push_decimal_signed(&mut sql, chain_id as i64);
    push_str(&mut sql, "\n                   AND block_number >= ");
    push_decimal_signed(&mut sql, fork_block_number as i64);
    push_str(&mut sql, "\n                   AND status = 'canonical'");
    sql
}

fn mark_reorged_block_scans(chain_id: u64, fork_block_number: u64, reorg_id: i64) -> (sql: String)
    ensures
        sql@ == mark_reorged_block_scans_sql(chain_id, fork_block_number, reorg_id),
{
    let mut sql = String::new();
    push_str(&mut sql, "UPDATE chaindexing_block_scans\n                 SET status = 'reorged', reorg_id = ");
    push_decimal_signed(&mut sql, reorg_id);
    push_str(&mut sql, "\n                 WHERE chain_id = ");
    push_decimal_signed(&mut sql, chain_id as i64);
    push_str(&mut sql, "\n                   AND block_hash IN (\n                       SELECT block_hash\n                       FROM chaindexing_blocks\n                       WHERE chain_id = ");
    push_decimal_signed(&mut sql, chain_id as i64);
    push_str(&mut sql, "\n                         AND block_number >= ");
    push_decimal_signed(&mut sql, fork_block_number as i64);
    push_str(&mut sql, "\n                   )\n                   AND status = 'canonical'");
    sql
}

impl SqlitePrototype {
    /// Which guarantees the SQLite prototype has shown.
    pub fn report() -> (report: LocalBackendPrototypeReport)
        ensures
            report.backend == "sqlite",
            guarantees_view(report.guarantees@) == sqlite_guarantees(),
    {
        LocalBackendPrototypeReport { backend: "sqlite", guarantees: sqlite_guarantee_list() }
    }

    /// The internal schema migrations of the prototype.
    pub fn internal_migrations() -> (migrations: &'static [&'static str])
        ensures
            migrations@ == SQLITE_INTERNAL_MIGRATIONS@,
    {
        &SQLITE_INTERNAL_MIGRATIONS
    }

    /// The statements marking every canonical row of a chain from the fork block on
    /// as reorged: blocks, events, transactions, call traces, then block scans.
    pub fn mark_reorged_from_block_statements(
        chain_id: u64,
        fork_block_number: u64,
        reorg_id: i64,
    ) -> (statements: Vec<String>)
        ensures
            statements@.map_values(|s: String| s@) == seq![
                mark_reorged_blocks_sql(chain_id, fork_block_number, reorg_id),
                mark_reorged_events_sql(chain_id, fork_block_number, reorg_id),
                mark_reorged_transactions_sql(chain_id, fork_block_number, reorg_id),
                mark_reorged_call_traces_sql(chain_id, fork_block_number, reorg_id),
                mark_reorged_block_scans_sql(chain_id, fork_block_number, reorg_id),
            ],
    {
        let mut statements: Vec<String> = Vec::new();
        statements.push(mark_reorged_blocks(chain_id, fork_block_number, reorg_id));
        statements.push(mark_reorged_events(chain_id, fork_block_number, reorg_id));
        statements.push(mark_reorged_transactions(chain_id, fork_block_number, reorg_id));
        statements.push(mark_reorged_call_traces(chain_id, fork_block_number, reorg_id));
        statements.push(mark_reorged_block_scans(chain_id, fork_block_number, reorg_id));
        assert(statements@.map_values(|s: String| s@) == seq![
            mark_reorged_blocks_sql(chain_id, fork_block_number, reorg_id),
            mark_reorged_events_sql(chain_id, fork_block_number, reorg_id),
            mark_reorged_transactions_sql(chain_id, fork_block_number, reorg_id),
            mark_reorged_call_traces_sql(chain_id, fork_block_number, reorg_id),
            mark_reorged_block_scans_sql(chain_id, fork_block_number, reorg_id),
        ]);
        statements
    }

    /// The statement leasing pending outbox jobs; a zero limit becomes one.
    pub fn lease_pending_outbox_jobs_query(limit: u32, lease_token: &str, lease_seconds: u32) -> (sql: String)
        ensures
            sql@ == sqlite_lease_pending_outbox_jobs_sql(limit, lease_token@, lease_seconds),
    {
        let mut sql = String::new();
        push_str(&mut sql, "UPDATE chaindexing_outbox\n             SET status = 'dispatching',\n                 attempt_count = attempt_count + 1,\n                 lease_token = ");
        push_sql_literal(&mut sql, lease_token);
        push_str(&mut sql, ",\n                 lease_expires_at = datetime('now', '+");
        push_decimal(&mut sql, lease_seconds as u64);
        push_str(&mut sql, " seconds'),\n                 updated_at = CURRENT_TIMESTAMP\n             WHERE id IN (\n                 SELECT id\n                 FROM chaindexing_outbox\n                 WHERE status = 'pending'\n                   AND (next_attempt_at IS NULL OR next_attempt_at <= CURRENT_TIMESTAMP)\n                 ORDER BY inserted_at ASC, id ASC\n                 LIMIT ");
        push_decimal(&mut sql, if limit < 1 { 1 } else { limit as u64 });
        push_str(&mut sql, "\n             )\n             RETURNING id, idempotency_key, attempt_count, lease_token");
        sql
    }
}

} // verus!
