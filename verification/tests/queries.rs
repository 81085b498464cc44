use chaindexing::events::Event;
use chaindexing::field_map::FieldMap;
use chaindexing::raw_queries::{
    create_contract_address_query, load_events_query, load_latest_events_query,
    prune_root_states_query, update_next_block_number_for_side_effects_query,
    update_next_block_number_to_handle_from_query, update_next_block_numbers_to_handle_from_query,
    UnsavedContractAddress,
};
use chaindexing::runtime_config::RuntimeConfig;
use chaindexing::state_versions::{prune_state_versions_query, StateVersions, StateView};
use chaindexing::states::{read_many_query, Filters};

fn event() -> Event {
    Event {
        id: 1,
        chain_id: 5,
        contract_address: "0xc".to_string(),
        contract_name: "C".to_string(),
        abi: "A".to_string(),
        parameters: "{}".to_string(),
        topics: "[]".to_string(),
        block_hash: "0xb".to_string(),
        block_number: 9,
        block_timestamp: 0,
        transaction_hash: "0xt".to_string(),
        transaction_index: 0,
        log_index: 0,
        removed: false,
    }
}

#[test]
fn cursor_updates_name_their_contract_and_chain() {
    assert_eq!(
        update_next_block_number_to_handle_from_query("0xa", 1, 77),
        "UPDATE chaindexing_contract_addresses\n        SET next_block_number_to_handle_from = 77\n        WHERE chain_id = 1 AND address = '0xa'"
    );
    assert_eq!(
        update_next_block_numbers_to_handle_from_query(1, 77),
        "UPDATE chaindexing_contract_addresses\n        SET next_block_number_to_handle_from = 77\n        WHERE chain_id = 1"
    );
    assert!(update_next_block_number_for_side_effects_query("0xa", 2, 3)
        .contains("SET next_block_number_for_side_effects = 3"));
    let one = create_contract_address_query(&UnsavedContractAddress {
        contract_name: "Nft".to_string(),
        address: "0xa".to_string(),
        chain_id: 1,
        start_block_number: 7,
    });
    assert!(one.contains("VALUES ('0xa', 1, 'Nft', 7, 7, 7)"));
    assert!(one.ends_with("DO NOTHING"));
}

#[test]
fn event_loading_queries_page_and_pick_latest() {
    let page = load_events_query(1, "0xa", 10, 50);
    assert!(page.contains("WHERE chain_id = 1 AND contract_address= '0xa'"));
    assert!(page.contains("AND block_number >= 10"));
    assert!(page.ends_with("LIMIT 50"));
    let latest = load_latest_events_query(&vec!["0xa".to_string(), "0xb".to_string()]);
    assert!(latest.contains("contract_address IN ('0xa','0xb')"));
    assert!(prune_root_states_query(1_000).contains("LIMIT 1000"));
}

#[test]
fn state_version_queries_target_the_version_table() {
    assert_eq!(
        StateVersions::get_query(9, 5, "nfts"),
        "SELECT * FROM chaindexing_state_versions_for_nfts \n            WHERE chain_id = 5\n            AND block_number >= 9"
    );
    assert_eq!(
        StateVersions::delete_by_ids_query(&vec!["1".to_string(), "2".to_string()], "nfts"),
        "DELETE FROM chaindexing_state_versions_for_nfts\n            WHERE state_version_id IN (1,2)"
    );
    assert!(StateVersions::get_latest_query(&vec!["g1".to_string(), "g2".to_string()], "nfts")
        .contains("WHERE state_version_group_id IN ('g1','g2')"));
    assert!(prune_state_versions_query("nfts", 100, 5)
        .contains("DELETE FROM chaindexing_state_versions_for_nfts\n            WHERE block_number < 100 \n            AND chain_id = 5"));
}

#[test]
fn views_are_found_by_their_contract_key() {
    let key = StateView::contract_view_key(&FieldMap::with_field("token_id", "7"), &event());
    assert_eq!(
        StateView::get_complete_query(&key, "nfts"),
        "SELECT * FROM nfts WHERE token_id = '7' AND chain_id = '5' AND contract_address = '0xc'"
    );
    let filters = Filters::new("token_id", "7").within_chain().within_contract();
    assert_eq!(
        read_many_query(&filters, &event(), "nfts"),
        "SELECT * FROM nfts \n        WHERE token_id = '7' AND chain_id = '5' AND contract_address = '0xc'"
    );
}

#[test]
fn every_runtime_profile_is_valid() {
    for config in [
        RuntimeConfig::deterministic(),
        RuntimeConfig::realtime(),
        RuntimeConfig::backfill(),
        RuntimeConfig::catchup_then_realtime(),
        RuntimeConfig::rpc_constrained(),
    ] {
        assert!(config.validate().is_ok());
        assert!(config.ingestion_poll_interval_ms_value() > 0);
        assert!(config.handler_poll_interval_ms_value() > 0);
        assert!(config.rpc_ref().retry_attempts_value() > 0);
        assert!(config.rpc_ref().base_backoff_ms_value() <= config.rpc_ref().max_backoff_ms_value());
    }
}
