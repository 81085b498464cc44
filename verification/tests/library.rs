use chaindexing::chain_reorg::{
    get_earliest_block_number, get_provider_added_and_removed_events, plan_chain_reorg,
    ReorgDeletion,
};
use chaindexing::char_seq::{split_chars, str_contains, str_count_matches, str_replace, str_trim};
use chaindexing::errors::{ChaindexingError, IngesterError, ProviderError};
use chaindexing::events::Event;
use chaindexing::ingestion::{
    count_logs_in_block, distinct_log_block_numbers, get_latest, has_current_block_filters,
    next_block_numbers_to_ingest_from, remove_already_ingested_filters, request_batches, Filter,
};
use chaindexing::local_backend::SqlitePrototype;
use chaindexing::nodes::{
    elect_leader, orchestrate, subtask_error, HeartbeatReading, KeepNodeActiveRequest, Node,
    NodeHeartbeat, NodeTasksAction, NodeTasksState, SubtaskOutcome,
};
use chaindexing::outbox::{idempotency_key, UnsavedOutboxJob};
use chaindexing::pruning::PruningConfig;
use chaindexing::raw_queries::{
    append_root_state_query, create_contract_addresses_query, json_aggregate_query,
    prune_nodes_query, update_reorged_blocks_as_handled_query, UnsavedContractAddress,
};
use chaindexing::repo::{PostgresRepo, RepoError, RepoMigrations};
use chaindexing::root::{maybe_reset, State};
use chaindexing::state_migrations::{is_json_column_of, SqlColumn, SqlColumnType};

fn event(id: u128, block_number: i64, log_index: i32, address: &str) -> Event {
    Event {
        id,
        chain_id: 1,
        contract_address: address.to_string(),
        contract_name: "Nft".to_string(),
        abi: "Transfer".to_string(),
        parameters: "{}".to_string(),
        topics: "[]".to_string(),
        block_hash: format!("0xblock{block_number}"),
        block_number,
        block_timestamp: 0,
        transaction_hash: "0xtx".to_string(),
        transaction_index: 0,
        log_index,
        removed: false,
    }
}

fn filter(contract_address_id: i64, address: &str, from_block: u64, to_block: u64) -> Filter {
    Filter { contract_address_id, address: address.to_string(), from_block, to_block, topics: vec![] }
}

#[test]
fn leader_is_the_first_newest_node() {
    let nodes = vec![
        Node { id: 1, last_active_at: 0, inserted_at: 10 },
        Node { id: 2, last_active_at: 0, inserted_at: 30 },
        Node { id: 3, last_active_at: 0, inserted_at: 30 },
    ];
    assert_eq!(elect_leader(&nodes).id, 2);
    assert!(nodes[1].is_leader(&elect_leader(&nodes)));
    assert!(!nodes[2].is_leader(&elect_leader(&nodes)));
}

#[test]
fn node_tasks_follow_leadership_and_heartbeat() {
    let leader = Node { id: 2, last_active_at: 0, inserted_at: 30 };
    let follower = Node { id: 1, last_active_at: 0, inserted_at: 10 };
    let nodes = vec![follower, leader];
    assert_eq!(orchestrate(NodeTasksState::Idle, &leader, &nodes, None), (NodeTasksState::Active, NodeTasksAction::Start));
    assert_eq!(orchestrate(NodeTasksState::Active, &follower, &nodes, None), (NodeTasksState::Aborted, NodeTasksAction::Stop));
    assert_eq!(orchestrate(NodeTasksState::Idle, &follower, &nodes, None), (NodeTasksState::Idle, NodeTasksAction::Nothing));
    let stale = HeartbeatReading { is_recent: false, started_long_enough_ago: true };
    assert_eq!(orchestrate(NodeTasksState::Active, &leader, &nodes, Some(stale)), (NodeTasksState::InActive, NodeTasksAction::Stop));
    let fresh = HeartbeatReading { is_recent: true, started_long_enough_ago: true };
    assert_eq!(orchestrate(NodeTasksState::InActive, &leader, &nodes, Some(fresh)), (NodeTasksState::Active, NodeTasksAction::Start));
    assert_eq!(orchestrate(NodeTasksState::Active, &leader, &nodes, Some(fresh)), (NodeTasksState::Active, NodeTasksAction::Nothing));
}

#[test]
fn heartbeats_expire_after_the_grace_period() {
    let mut heartbeat = NodeHeartbeat::new(1_000, 5_000);
    assert!(heartbeat.is_recent(5_500));
    assert!(heartbeat.is_stale(6_000));
    heartbeat.keep_alive(6_000);
    assert!(heartbeat.is_recent(6_500));
    let request = KeepNodeActiveRequest::new(100, 1_000);
    assert!(request.is_recent(1_099));
    assert!(request.is_stale(1_100));
}

#[test]
fn finished_subtasks_report_why_they_ended() {
    assert_eq!(
        subtask_error("ingester", &SubtaskOutcome::Returned),
        Some("Subtask `ingester` stopped unexpectedly".to_string())
    );
    assert_eq!(subtask_error("ingester", &SubtaskOutcome::Cancelled), None);
    assert_eq!(
        subtask_error("panic-task", &SubtaskOutcome::Failed("task failed".to_string())),
        Some("Subtask `panic-task` failed: task failed".to_string())
    );
}

#[test]
fn reorgs_compare_ingested_and_provider_events() {
    let ingested = vec![event(1, 10, 0, "0xa"), event(2, 11, 0, "0xa")];
    let same = vec![event(2, 11, 0, "0xa"), event(1, 10, 0, "0xa")];
    assert!(get_provider_added_and_removed_events(&ingested, &same).is_none());

    let provider = vec![event(1, 10, 0, "0xa"), event(3, 12, 0, "0xa")];
    let (added, removed) = get_provider_added_and_removed_events(&ingested, &provider).unwrap();
    assert_eq!(added.iter().map(|e| e.id).collect::<Vec<_>>(), vec![3]);
    assert_eq!(removed.iter().map(|e| e.id).collect::<Vec<_>>(), vec![2]);
    assert_eq!(get_earliest_block_number(&added, &removed), 11);

    let repair = plan_chain_reorg(None, Some((added, removed))).unwrap();
    assert_eq!(repair.reorged_block_number, 11);
    match repair.deletion {
        ReorgDeletion::EventIds(ids) => assert_eq!(ids, vec![2]),
        ReorgDeletion::FromBlockNumber(_) => panic!("expected event ids"),
    }
    assert_eq!(repair.events_to_create.len(), 1);

    let repair = plan_chain_reorg(Some(9), None).unwrap();
    assert_eq!(repair.reorged_block_number, 9);
    assert!(matches!(repair.deletion, ReorgDeletion::FromBlockNumber(9)));
    assert!(plan_chain_reorg(None, None).is_none());
}

#[test]
fn already_ingested_single_block_filters_are_dropped() {
    let filters = vec![
        filter(1, "0xa", 20, 20),
        filter(2, "0xb", 20, 20),
        filter(3, "0xc", 10, 20),
        filter(1, "0xa", 5, 9),
    ];
    assert!(has_current_block_filters(&filters));
    // A later entry for the same address wins.
    let latest = vec![event(1, 19, 0, "0xb"), event(2, 20, 0, "0xa"), event(3, 18, 0, "0xa")];
    let kept = remove_already_ingested_filters(&filters, &latest);
    assert_eq!(kept.iter().map(|f| f.contract_address_id).collect::<Vec<_>>(), vec![1, 2, 3, 1]);
    let latest = vec![event(1, 19, 0, "0xb"), event(3, 18, 0, "0xa"), event(2, 20, 0, "0xa")];
    let kept = remove_already_ingested_filters(&filters, &latest);
    assert_eq!(kept.iter().map(|f| f.contract_address_id).collect::<Vec<_>>(), vec![2, 3]);
    let latest = vec![event(2, 20, 0, "0xa"), event(3, 20, 0, "0xb")];
    let kept = remove_already_ingested_filters(&filters, &latest);
    assert_eq!(kept.iter().map(|f| f.contract_address_id).collect::<Vec<_>>(), vec![3]);
    assert!(!has_current_block_filters(&[filter(1, "0xa", 1, 2)]));
}

#[test]
fn contract_addresses_ingest_from_past_their_latest_filter() {
    let filters = vec![filter(1, "0xa", 0, 10), filter(2, "0xb", 0, 7), filter(1, "0xa", 11, 12)];
    assert_eq!(next_block_numbers_to_ingest_from(&[1, 2, 3], &filters), vec![Some(13), Some(8), None]);
    let latest = get_latest(&[filter(1, "0xa", 0, 12), filter(2, "0xb", 3, 12), filter(3, "0xc", 0, 5)]).unwrap();
    assert_eq!(latest.contract_address_id, 2);
    assert!(get_latest(&[]).is_none());
}

#[test]
fn requests_go_out_in_bounded_batches() {
    assert_eq!(request_batches(5, 2), vec![(0, 2), (2, 4), (4, 5)]);
    assert_eq!(request_batches(3, 0), vec![(0, 1), (1, 2), (2, 3)]);
    assert!(request_batches(0, 4).is_empty());
    assert_eq!(distinct_log_block_numbers(&[Some(5), None, Some(3), Some(5)]), vec![3, 5]);
    let hashes = vec![Some("0x1".to_string()), None, Some("0x2".to_string()), Some("0x1".to_string())];
    assert_eq!(count_logs_in_block(&hashes, "0x1"), 2);
}

#[test]
fn pruning_keeps_a_window_of_blocks() {
    let config = PruningConfig::default();
    assert_eq!(config.prune_n_blocks_away, 30_000);
    assert_eq!(config.get_min_block_number(100_000), 70_000);
    assert_eq!(config.get_min_block_number(10), 0);
    assert_eq!(config.get_min_block_number(30_000), 0);
}

#[test]
fn sqlite_prototype_reports_and_marks_reorgs() {
    let report = SqlitePrototype::report();
    assert_eq!(report.backend, "sqlite");
    assert_eq!(report.guarantees.len(), 7);
    assert!(SqlitePrototype::internal_migrations().iter().any(|m| m.contains("chaindexing_outbox")));
    let statements = SqlitePrototype::mark_reorged_from_block_statements(1, 100, 7);
    assert_eq!(statements.len(), 5);
    assert!(statements[0].contains("chaindexing_blocks"));
    let lease = SqlitePrototype::lease_pending_outbox_jobs_query(0, "lease'1", 30);
    assert!(lease.contains("LIMIT 1"));
    assert!(lease.contains("'lease''1'"));
}

#[test]
fn outbox_jobs_are_keyed_by_handler_and_event_identity() {
    let e = event(9, 42, 3, "0xabc");
    assert_eq!(idempotency_key(&e, "webhook"), "webhook:1:0xabc:0xblock42:0xtx:3");
    let job = UnsavedOutboxJob::new(&e, "webhook", "{}".to_string());
    assert_eq!(job.receipt().idempotency_key, "webhook:1:0xabc:0xblock42:0xtx:3");
    assert!(job.insert_query().contains("'00000000-0000-0000-0000-000000000009'"));
}

#[test]
fn repository_queries_are_built_from_their_arguments() {
    let addresses = vec![
        UnsavedContractAddress { contract_name: "Nft".to_string(), address: "0xa".to_string(), chain_id: 1, start_block_number: 5 },
        UnsavedContractAddress { contract_name: "Pool".to_string(), address: "0xb".to_string(), chain_id: 1, start_block_number: 6 },
    ];
    let query = create_contract_addresses_query(&addresses);
    assert!(query.contains("VALUES ('0xa', 1, 'Nft', 5, 5, 5),('0xb', 1, 'Pool', 6, 6, 6)"));
    assert_eq!(update_reorged_blocks_as_handled_query(&[], 10), None);
    let handled = update_reorged_blocks_as_handled_query(&[3, 4], 10).unwrap();
    assert!(handled.contains("SET handled_at = '10'"));
    assert!(handled.contains("WHERE id IN (3,4)"));
    let root = append_root_state_query(&State { reset_count: 2, reset_including_side_effects_count: 1 });
    assert!(root.contains("VALUES ('2', '1')"));
    assert!(prune_nodes_query(50).contains("LIMIT 50"));
    assert_eq!(
        json_aggregate_query("SELECT 1"),
        "WITH result AS (SELECT 1) SELECT COALESCE(json_agg(result), '[]'::json) FROM result"
    );
    let internal = PostgresRepo::get_internal_migrations();
    assert_eq!(internal.len(), 5);
    assert!(internal[0].contains("chaindexing_events"));
    assert!(internal.iter().any(|m| m.starts_with("CREATE UNIQUE INDEX IF NOT EXISTS chaindexing_events_identity")
        && m.contains("ON chaindexing_events(chain_id,contract_address,block_hash,transaction_hash,log_index)")));
    assert!(PostgresRepo::get_reset_internal_migrations()[2].starts_with("UPDATE chaindexing_contract_addresses"));
    assert_eq!(PostgresRepo::new("postgres://db").url, "postgres://db");
}

#[test]
fn resets_run_only_for_a_higher_count() {
    let last = State { reset_count: 2, reset_including_side_effects_count: 1 };
    assert_eq!(maybe_reset(3, Some(last)), Some(State { reset_count: 3, reset_including_side_effects_count: 1 }));
    assert_eq!(maybe_reset(2, Some(last)), None);
    assert_eq!(maybe_reset(0, None), None);
    let mut state = State::new();
    state.update_reset_including_side_effects_count(4);
    assert_eq!(state, State { reset_count: 0, reset_including_side_effects_count: 4 });
}

#[test]
fn errors_display_their_messages() {
    assert_eq!(ProviderError::custom("boom").to_string(), "boom");
    assert_eq!(RepoError::NotConnected.to_string(), "NotConnected");
    assert_eq!(
        IngesterError::from_provider_error(ProviderError::TransportError("timeout".to_string())).to_string(),
        "provider error: timeout"
    );
    assert_eq!(IngesterError::GenericError("bad".to_string()).to_string(), "bad");
    assert_eq!(ChaindexingError::Runtime("stopped".to_string()).to_string(), "Runtime error: stopped");
    assert_eq!(ChaindexingError::Config("missing url".to_string()).to_string(), "Config error: missing url");
}

#[test]
fn text_operations_follow_str_semantics() {
    assert_eq!(str_replace("a,b,,c", ",", ";"), "a;b;;c");
    assert_eq!(str_replace("aaaa", "aa", "b"), "bb");
    assert_eq!(str_count_matches("aaaa", "aa"), 2);
    assert_eq!(str_count_matches("contract_address pool_contract_address", "contract_address"), 2);
    assert!(str_contains("CREATE TABLE x", "TABLE"));
    assert!(!str_contains("CREATE", "TABLE"));
    assert_eq!(str_trim("\u{a0} id SERIAL \n"), "id SERIAL");
    let pieces = split_chars(&"a,,b".chars().collect(), ',');
    assert_eq!(pieces, vec![vec!['a'], vec![], vec!['b']]);
}

#[test]
fn json_columns_are_recognised_by_uppercased_custom_names() {
    let custom = |name: &str| SqlColumn { name: "c".to_string(), data_type: SqlColumnType::Custom(name.to_string()) };
    assert!(is_json_column_of(&custom("jsonb")));
    assert!(is_json_column_of(&custom("JsonB")));
    assert!(!is_json_column_of(&custom("json")));
    assert!(is_json_column_of(&SqlColumn { name: "c".to_string(), data_type: SqlColumnType::Json }));
    assert!(!is_json_column_of(&SqlColumn { name: "c".to_string(), data_type: SqlColumnType::Other }));
}
