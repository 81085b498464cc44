use chaindexing::inspection::{
    InspectionQueries, InspectionQuery, InspectionResource, InspectionUi, InspectionUiQuery,
};

#[test]
fn inspection_query_defaults_to_first_hundred_rows() {
    let query = InspectionQuery::new(1);

    assert_eq!(query.chain_id, 1);
    assert_eq!(query.from_block_number, 0);
    assert_eq!(query.limit, 100);
}

#[test]
fn inspection_queries_are_status_scoped_and_ordered() {
    let query = InspectionQuery::new(1).from_block_number(42).limit(10);
    let transactions = InspectionQueries::canonical_transactions(query);
    let traces = InspectionQueries::canonical_call_traces(query);

    assert!(transactions.contains("FROM chaindexing_transactions"));
    assert!(transactions.contains("status = 'canonical'"));
    assert!(transactions.contains("block_number >= 42"));
    assert!(transactions.contains("LIMIT 10"));
    assert!(traces.contains("ORDER BY block_number ASC, transaction_hash ASC, trace_index ASC"));
}

#[test]
fn inspection_limit_never_builds_zero_limit_queries() {
    let query = InspectionQuery::new(1).limit(0);
    let events = InspectionQueries::canonical_events(query);
    let reorgs = InspectionQueries::recent_reorgs(1, 0);

    assert!(events.contains("LIMIT 1"));
    assert!(reorgs.contains("LIMIT 1"));
}

#[test]
fn inspection_ui_maps_api_paths_to_resources() {
    assert_eq!(
        InspectionUi::resource_from_api_path("/api/events"),
        Some(InspectionResource::Events)
    );
    assert_eq!(
        InspectionUi::resource_from_api_path("/api/call-traces"),
        Some(InspectionResource::CallTraces)
    );
    assert_eq!(InspectionUi::resource_from_api_path("/api/unknown"), None);
}

#[test]
fn inspection_ui_queries_are_read_only_and_status_scoped() {
    let query = InspectionUiQuery::new(1).from_block_number(42).limit(10);
    let sql = InspectionUi::query(InspectionResource::Transactions, query);

    assert!(sql.trim_start().starts_with("SELECT"));
    assert!(sql.contains("FROM chaindexing_transactions"));
    assert!(sql.contains("status = 'canonical'"));
    assert!(sql.contains("block_number >= 42"));
    assert!(sql.contains("LIMIT 10"));
}

#[test]
fn inspection_ui_clamps_expensive_limits() {
    let query = InspectionUiQuery::new(1).limit(10_000);
    let sql = InspectionUi::query(InspectionResource::Events, query);

    assert!(sql.contains("LIMIT 1000"));
}

#[test]
fn inspection_ui_html_contains_api_resources() {
    let html = InspectionUi::html();

    for resource in ["events", "blocks", "transactions", "call-traces", "reorgs"] {
        assert!(html.contains(resource));
    }
}
