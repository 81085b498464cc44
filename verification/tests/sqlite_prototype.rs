use chaindexing::local_backend::SqlitePrototype;
use rusqlite::Connection;

fn migrated_connection() -> Connection {
    let conn = Connection::open_in_memory().expect("open in-memory sqlite");

    for migration in SqlitePrototype::internal_migrations() {
        conn.execute_batch(migration).expect("run sqlite prototype migration");
    }

    conn
}

const INSERT_BLOCK: &str = "INSERT INTO chaindexing_blocks
     (chain_id, block_number, block_hash, parent_hash, block_timestamp, status)
     VALUES (1, 10, '0xblock', '0xparent', 1, 'canonical')";

const INSERT_TRANSACTION: &str = "INSERT INTO chaindexing_transactions
     (chain_id, block_number, block_hash, transaction_hash, transaction_index,
      from_address, value, input, raw)
     VALUES (1, 10, '0xblock', '0xtx', 0, '0xfrom', '0', '0x', '{}')";

fn insert_event(id: &str) -> String {
    format!(
        "INSERT INTO chaindexing_events
         (id, chain_id, contract_address, contract_name, abi, parameters, topics,
          block_hash, block_number, block_timestamp, transaction_hash,
          transaction_index, log_index, removed)
         VALUES ('{id}', 1, '0xcontract', 'ERC721', 'Transfer', '{{}}', '[]',
                 '0xblock', 10, 1, '0xtx', 0, 0, 0)"
    )
}

#[test]
fn sqlite_prototype_schema_creates_internal_tables() {
    let conn = migrated_connection();
    let mut stmt = conn
        .prepare(
            "SELECT name
             FROM sqlite_master
             WHERE type = 'table'
               AND name LIKE 'chaindexing_%'
             ORDER BY name",
        )
        .expect("prepare table query");

    let table_names = stmt
        .query_map([], |row| row.get::<_, String>(0))
        .expect("query table names")
        .collect::<Result<Vec<_>, _>>()
        .expect("read table names");

    for expected in [
        "chaindexing_block_scans",
        "chaindexing_blocks",
        "chaindexing_call_traces",
        "chaindexing_checkpoints",
        "chaindexing_contract_addresses",
        "chaindexing_events",
        "chaindexing_nodes",
        "chaindexing_outbox",
        "chaindexing_reorged_blocks",
        "chaindexing_reorgs",
        "chaindexing_root_states",
        "chaindexing_transactions",
    ] {
        assert!(table_names.contains(&expected.to_string()));
    }
}

#[test]
fn sqlite_prototype_rolls_back_internal_batch_atomically() {
    let mut conn = migrated_connection();

    {
        let txn = conn.transaction().expect("start sqlite transaction");
        txn.execute(INSERT_BLOCK, []).expect("insert block");
        txn.execute(&insert_event("event-1"), []).expect("insert event");
        txn.execute(INSERT_TRANSACTION, []).expect("insert transaction");

        txn.rollback().expect("rollback sqlite transaction");
    }

    let block_count: i64 = conn
        .query_row("SELECT COUNT(*) FROM chaindexing_blocks", [], |row| row.get(0))
        .expect("count blocks");
    let event_count: i64 = conn
        .query_row("SELECT COUNT(*) FROM chaindexing_events", [], |row| row.get(0))
        .expect("count events");
    let transaction_count: i64 = conn
        .query_row("SELECT COUNT(*) FROM chaindexing_transactions", [], |row| row.get(0))
        .expect("count transactions");

    assert_eq!(block_count, 0);
    assert_eq!(event_count, 0);
    assert_eq!(transaction_count, 0);
}

#[test]
fn sqlite_prototype_preserves_internal_identity_keys() {
    let conn = migrated_connection();

    conn.execute(&insert_event("event-1"), []).expect("insert event");

    let duplicate = conn.execute(&insert_event("event-2"), []);

    assert!(duplicate.is_err());
}

#[test]
fn sqlite_prototype_marks_reorged_internal_rows_consistently() {
    let conn = migrated_connection();

    conn.execute(INSERT_BLOCK, []).expect("insert block");
    conn.execute(&insert_event("event-1"), []).expect("insert event");
    conn.execute(INSERT_TRANSACTION, []).expect("insert transaction");
    conn.execute(
        "INSERT INTO chaindexing_call_traces
         (chain_id, block_number, block_hash, transaction_hash, trace_index,
          trace_address, raw)
         VALUES (1, 10, '0xblock', '0xtx', 0, '0', '{}')",
        [],
    )
    .expect("insert trace");
    conn.execute(
        "INSERT INTO chaindexing_block_scans
         (chain_id, block_hash, contract_address, topic_set_hash, log_count)
         VALUES (1, '0xblock', '0xcontract', 'topics', 1)",
        [],
    )
    .expect("insert scan");

    for statement in SqlitePrototype::mark_reorged_from_block_statements(1, 10, 99) {
        conn.execute_batch(&statement).expect("mark row reorged");
    }

    for table in [
        "chaindexing_blocks",
        "chaindexing_events",
        "chaindexing_transactions",
        "chaindexing_call_traces",
        "chaindexing_block_scans",
    ] {
        let status: String = conn
            .query_row(&format!("SELECT status FROM {table} LIMIT 1"), [], |row| row.get(0))
            .expect("load status");
        assert_eq!(status, "reorged");
    }
}

#[test]
fn sqlite_prototype_leases_pending_outbox_jobs_once() {
    let conn = migrated_connection();

    for id in 1..=3 {
        conn.execute(
            "INSERT INTO chaindexing_outbox
             (idempotency_key, chain_id, contract_address, event_id, handler_id, payload, status)
             VALUES (?1, 1, '0xcontract', ?2, 'handler', '{}', 'pending')",
            (format!("key-{id}"), format!("event-{id}")),
        )
        .expect("insert pending outbox job");
    }

    let first_query = SqlitePrototype::lease_pending_outbox_jobs_query(2, "lease-1", 30);
    let first_count = conn
        .prepare(&first_query)
        .expect("prepare first lease")
        .query_map([], |row| row.get::<_, i64>(0))
        .expect("lease first jobs")
        .count();

    let second_query = SqlitePrototype::lease_pending_outbox_jobs_query(2, "lease-2", 30);
    let second_count = conn
        .prepare(&second_query)
        .expect("prepare second lease")
        .query_map([], |row| row.get::<_, i64>(0))
        .expect("lease second jobs")
        .count();

    assert_eq!(first_count, 2);
    assert_eq!(second_count, 1);

    let dispatching_count: i64 = conn
        .query_row(
            "SELECT COUNT(*) FROM chaindexing_outbox WHERE status = 'dispatching'",
            [],
            |row| row.get(0),
        )
        .expect("count dispatching jobs");

    assert_eq!(dispatching_count, 3);
}
