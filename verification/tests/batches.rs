use chaindexing::chain_reorg::{Execution, MinConfirmationCount};
use chaindexing::ingestion::{
    filters_for, group_by_contract_address_id, ingest_step, maybe_filter, select_indexed_data,
    ContractAddressCursor, Filter, IngestAction,
};
use chaindexing::nodes::{orchestrate_with_leadership, HeartbeatReading, NodeTasksAction, NodeTasksState};
use chaindexing::outbox::{
    checked_dispatch_outcome_query, retry_delay_secs, LeasedOutboxJob, OutboxDispatchConfig,
    UnsavedOutboxJob,
};
use chaindexing::reset_counts::{ResetCount, MAX_RESET_COUNT};
use chaindexing::states::Filters;

fn cursor(id: i64, address: &str, next: u64, start: u64) -> ContractAddressCursor {
    ContractAddressCursor {
        id,
        address: address.to_string(),
        next_block_number_to_ingest_from: next,
        start_block_number: start,
    }
}

fn topics() -> Vec<String> {
    vec!["0xddf252ad".to_string()]
}

fn range(filter: &Filter) -> (i64, String, u64, u64) {
    (filter.contract_address_id, filter.address.clone(), filter.from_block, filter.to_block)
}

#[test]
fn main_run_filter_covers_a_batch_up_to_the_current_block() {
    let f = maybe_filter(7, &"0xabc".to_string(), &topics(), 100, 10, 1_000, 50, Execution::Main).unwrap();
    assert_eq!(range(&f), (7, "0xabc".to_string(), 100, 150));
    assert_eq!(f.topics, topics());
    let f = maybe_filter(7, &"0xabc".to_string(), &topics(), 990, 10, 1_000, 50, Execution::Main).unwrap();
    assert_eq!(range(&f), (7, "0xabc".to_string(), 990, 1_000));
}

#[test]
fn confirmation_run_filter_appears_only_inside_the_window() {
    let confirmation = Execution::Confirmation(MinConfirmationCount::new(12));
    let f = maybe_filter(1, &"0x1".to_string(), &topics(), 995, 10, 1_000, 50, confirmation).unwrap();
    assert_eq!(range(&f), (1, "0x1".to_string(), 983, 1_045));
    assert!(maybe_filter(1, &"0x1".to_string(), &topics(), 900, 10, 1_000, 50, confirmation).is_none());
    let f = maybe_filter(1, &"0x1".to_string(), &topics(), 15, 10, 20, 5, confirmation).unwrap();
    assert_eq!((f.from_block, f.to_block), (10, 20));
}

#[test]
fn confirmation_count_deducts_without_going_below_the_start_block() {
    let count = MinConfirmationCount::new(12);
    assert_eq!(count.as_u64(), 12);
    assert_eq!(count.deduct_from(100, 0), 88);
    assert_eq!(count.deduct_from(100, 95), 95);
    assert_eq!(count.deduct_from(5, 0), 0);
    assert!(count.is_in_confirmation_window(88, 100));
    assert!(!count.is_in_confirmation_window(87, 100));
    assert!(count.is_in_confirmation_window(0, 5));
}

#[test]
fn filters_stop_at_the_first_contract_without_topics() {
    let addresses = vec![cursor(1, "0x1", 10, 0), cursor(2, "0x2", 20, 0), cursor(3, "0x3", 30, 0)];
    let filters = filters_for(&addresses, &[Some(topics()), None, Some(topics())], 100, 5, Execution::Main);
    assert_eq!(filters.len(), 1);
    assert_eq!(range(&filters[0]), (1, "0x1".to_string(), 10, 15));

    let filters = filters_for(&addresses, &[Some(topics()), Some(vec![]), Some(topics())], 100, 5, Execution::Main);
    assert_eq!(filters[1].topics, Vec::<String>::new());
    assert_eq!(filters[2].topics, topics());
    let ranges: Vec<_> = filters.iter().map(range).collect();
    assert_eq!(
        ranges,
        vec![
            (1, "0x1".to_string(), 10, 15),
            (2, "0x2".to_string(), 20, 25),
            (3, "0x3".to_string(), 30, 35),
        ]
    );
}

#[test]
fn confirmation_filters_stop_at_the_first_address_outside_the_window() {
    let addresses = vec![cursor(1, "0x1", 95, 0), cursor(2, "0x2", 10, 0), cursor(3, "0x3", 99, 0)];
    let confirmation = Execution::Confirmation(MinConfirmationCount::new(10));
    let filters = filters_for(&addresses, &[Some(topics()), Some(topics()), Some(topics())], 100, 5, confirmation);
    assert_eq!(filters.len(), 1);
    assert_eq!((filters[0].from_block, filters[0].to_block), (85, 100));
}

#[test]
fn ingest_step_repairs_a_fork_or_advances_cursors() {
    let filters = vec![
        Filter { contract_address_id: 1, address: "0x1".to_string(), from_block: 10, to_block: 15, topics: vec![] },
        Filter { contract_address_id: 1, address: "0x1".to_string(), from_block: 16, to_block: 20, topics: vec![] },
        Filter { contract_address_id: 2, address: "0x2".to_string(), from_block: 5, to_block: 8, topics: vec![] },
    ];
    match ingest_step(Some(12), &[1, 2, 3], &filters) {
        IngestAction::RepairReorg(block) => assert_eq!(block, 12),
        other => panic!("expected a reorg repair, got {:?}", other),
    }
    match ingest_step(None, &[1, 2, 3], &filters) {
        IngestAction::Commit(next) => assert_eq!(next, vec![Some(21), Some(9), None]),
        other => panic!("expected a commit, got {:?}", other),
    }
    assert!(matches!(ingest_step(Some(3), &[1], &[]), IngestAction::Idle));
}

#[test]
fn leadership_decides_orchestration() {
    assert_eq!(
        orchestrate_with_leadership(NodeTasksState::Idle, true, None),
        (NodeTasksState::Active, NodeTasksAction::Start)
    );
    assert_eq!(
        orchestrate_with_leadership(NodeTasksState::Active, false, None),
        (NodeTasksState::Aborted, NodeTasksAction::Stop)
    );
    let stale = HeartbeatReading { is_recent: false, started_long_enough_ago: true };
    assert_eq!(
        orchestrate_with_leadership(NodeTasksState::Active, true, Some(stale)),
        (NodeTasksState::InActive, NodeTasksAction::Stop)
    );
    let recent = HeartbeatReading { is_recent: true, started_long_enough_ago: true };
    assert_eq!(
        orchestrate_with_leadership(NodeTasksState::InActive, true, Some(recent)),
        (NodeTasksState::Active, NodeTasksAction::Start)
    );
}

#[test]
fn reset_count_is_the_row_id() {
    assert_eq!(ResetCount::new(3, 0).get_count(), 3);
    assert_eq!(MAX_RESET_COUNT, 1_000);
}

#[test]
fn cloned_filters_agree_under_add_and_add_mut() {
    let f = Filters::new("token_id", "1");
    let added = f.clone().add("owner", "0x1");
    let mut g = f.clone();
    g.add_mut("owner", "0x1");
    assert_eq!(added.values().pairs(), g.values().pairs());
    assert_eq!(f.values().pairs().len(), 1);
    assert_eq!(added.context(), g.context());
}

fn leased(attempt_count: i32) -> LeasedOutboxJob {
    LeasedOutboxJob {
        id: 4,
        idempotency_key: "k".to_string(),
        chain_id: 1,
        contract_address: "0x1".to_string(),
        event_id: 0,
        handler_id: "h".to_string(),
        payload: "{}".to_string(),
        attempt_count,
        lease_token: 0x0123456789abcdef0123456789abcdef,
    }
}

#[test]
fn retry_delay_doubles_and_reports_overflow() {
    let config = OutboxDispatchConfig::default();
    assert_eq!(retry_delay_secs(1, config), Some(5));
    assert_eq!(retry_delay_secs(3, config), Some(20));
    assert_eq!(retry_delay_secs(20, config), Some(320));
    let huge = OutboxDispatchConfig { base_retry_delay_secs: u64::MAX / 2, ..config };
    assert_eq!(retry_delay_secs(3, huge), None);
    assert!(checked_dispatch_outcome_query(&leased(3), &Err("boom".to_string()), huge).is_none());
    let sql = checked_dispatch_outcome_query(&leased(3), &Err("boom".to_string()), config).unwrap();
    assert!(sql.contains("INTERVAL '20 seconds'"));
}

#[test]
fn uuids_print_as_hyphenated_lowercase_hex() {
    let sql = checked_dispatch_outcome_query(&leased(1), &Ok(()), OutboxDispatchConfig::default()).unwrap();
    assert!(sql.contains("lease_token = '01234567-89ab-cdef-0123-456789abcdef'"));
    let job = UnsavedOutboxJob {
        idempotency_key: "k".to_string(),
        chain_id: 1,
        contract_address: "0x1".to_string(),
        event_id: 0xff,
        handler_id: "h".to_string(),
        payload: "{}".to_string(),
    };
    assert!(job.insert_query().contains("'00000000-0000-0000-0000-0000000000ff'"));
}

fn plain_filter(id: i64, from_block: u64, to_block: u64) -> Filter {
    Filter { contract_address_id: id, address: format!("0x{id}"), from_block, to_block, topics: vec![] }
}

#[test]
fn filters_group_by_contract_address_in_order() {
    let filters = vec![plain_filter(1, 0, 5), plain_filter(2, 0, 3), plain_filter(1, 6, 9)];
    let groups = group_by_contract_address_id(&filters);
    assert_eq!(groups.len(), 2);
    let ones: Vec<_> = groups[&1].iter().map(|f| (f.from_block, f.to_block)).collect();
    assert_eq!(ones, vec![(0, 5), (6, 9)]);
    assert_eq!(groups[&2].len(), 1);
    assert!(!groups.contains_key(&3));
}

#[test]
fn indexed_data_selection_traces_only_blocks_with_hashes() {
    let mut real = [0u8; 32];
    real[31] = 7;
    let hashes = vec![real, [0u8; 32], real];
    let selection = select_indexed_data(true, true, &hashes);
    assert!(selection.transactions);
    assert_eq!(selection.traced_blocks, vec![0, 2]);
    let selection = select_indexed_data(false, false, &hashes);
    assert!(!selection.transactions);
    assert!(selection.traced_blocks.is_empty());
}
