use chaindexing::field_map::FieldMap;
use chaindexing::state_versions::{StateVersion, StateVersions, StateView};
use chaindexing::states::{read_query, serde_map_to_string_map, to_and_filters, Filters, JsonValue, Updates};
use chaindexing::events::Event;

fn event() -> Event {
    Event {
        id: 0,
        chain_id: 137,
        contract_address: "0xabc".to_string(),
        contract_name: "Nft".to_string(),
        abi: "Transfer(address,address,uint256)".to_string(),
        parameters: "{}".to_string(),
        topics: "[]".to_string(),
        block_hash: "0xblock".to_string(),
        block_number: 42,
        block_timestamp: 1_700_000_000,
        transaction_hash: "0xtx".to_string(),
        transaction_index: 3,
        log_index: -1,
        removed: false,
    }
}

#[test]
fn read_query_escapes_filter_values() {
    let filters = FieldMap::with_field("owner", "owner's wallet");

    let query = read_query("nfts", &filters);

    assert!(query.contains("owner = 'owner''s wallet'"));
}

#[test]
fn read_query_allows_empty_filters() {
    assert_eq!(read_query("nfts", &FieldMap::new()), "SELECT * FROM nfts");
}

#[test]
fn delete_query_escapes_state_version_group_id() {
    let query = StateView::delete_query("group'1", "nfts");

    assert!(query.contains("state_version_group_id = 'group''1'"));
}

#[test]
fn filters_scope_to_contract_chain_or_all_chains() {
    let filters = Filters::new("token_id", "7").add("owner", "0xme");
    let contract = filters.get(&event());
    assert_eq!(
        to_and_filters(&contract),
        "token_id = '7' AND owner = '0xme' AND chain_id = '137' AND contract_address = '0xabc'"
    );
    let chain = Filters::new("token_id", "7").within_chain().get(&event());
    assert_eq!(to_and_filters(&chain), "token_id = '7' AND chain_id = '137'");
    let all = Filters::new("token_id", "7").within_multi_chain().get(&event());
    assert_eq!(to_and_filters(&all), "token_id = '7'");
}

#[test]
fn later_values_replace_earlier_ones_in_place() {
    let updates = Updates::new("owner", "0xa").add("price", "1").add("owner", "0xb");
    assert_eq!(
        updates.values().pairs(),
        vec![
            ("owner".to_string(), "0xb".to_string()),
            ("price".to_string(), "1".to_string())
        ]
    );
}

#[test]
fn loaded_rows_drop_nulls_and_unquote_scalars() {
    let row = vec![
        ("token_id".to_string(), JsonValue::Other("7".to_string())),
        ("owner".to_string(), JsonValue::Other("\"0xme\"".to_string())),
        ("meta".to_string(), JsonValue::Object("{\"a\":1}".to_string())),
        ("gone".to_string(), JsonValue::Null),
    ];
    let fields = serde_map_to_string_map(&row);
    assert_eq!(fields.get("owner"), Some("0xme".to_string()));
    assert_eq!(fields.get("meta"), Some("{\"a\":1}".to_string()));
    assert_eq!(fields.get("gone"), None);
    assert_eq!(fields.len(), 3);
}

#[test]
fn state_versions_carry_their_event_and_table() {
    assert_eq!(StateVersion::table_name("nfts"), "chaindexing_state_versions_for_nfts");
    let state = FieldMap::with_field("token_id", "7");
    let version = StateVersion::created(&state, "group-1");
    let query = StateVersion::append_query(&version, "nfts", &event());
    assert_eq!(
        query,
        "INSERT INTO chaindexing_state_versions_for_nfts (token_id,state_version_group_id,contract_address,chain_id,transaction_hash,transaction_index,log_index,block_number,block_hash) VALUES ('7','group-1','0xabc','137','0xtx','3','-1','42','0xblock')\n            RETURNING *"
    );
    let deleted = StateVersion::deleted(&version);
    assert!(StateVersion::was_deleted(&deleted));
    assert_eq!(StateVersion::get_group_id(&deleted), "group-1");
    assert_eq!(StateVersions::get_group_ids(&[deleted.duplicate()]), vec!["group-1".to_string()]);
}

#[test]
fn refreshing_a_view_deletes_then_inserts_unless_deleted() {
    let mut latest = FieldMap::with_field("state_version_id", "9");
    latest.insert("state_version_is_deleted", "false");
    latest.insert("state_version_group_id", "g");
    latest.insert("token_id", "7");
    let queries = StateView::refresh_queries(&latest, "nfts");
    assert_eq!(
        queries,
        vec![
            "DELETE FROM nfts WHERE state_version_group_id = 'g'".to_string(),
            "INSERT INTO nfts (state_version_group_id,token_id) VALUES ('g','7')".to_string(),
        ]
    );
    latest.insert("state_version_is_deleted", "true");
    assert_eq!(StateView::refresh_queries(&latest, "nfts").len(), 1);
}
