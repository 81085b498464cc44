use chaindexing::errors::ProviderError;
use chaindexing::ingestion::{
    backoff_delay, block_numbers_for_filters, blocks_for_filters, blocks_from_fork_point,
    finality_tag, target_block_number, BlockTag, Filter, IndexingFinality, RetryPolicy,
};

fn filter(contract_address_id: i64, address: &str, from_block: u64, to_block: u64) -> Filter {
    Filter {
        contract_address_id,
        address: address.to_string(),
        from_block,
        to_block,
        topics: vec![],
    }
}

#[test]
fn provider_error_custom_error_variant_keeps_legacy_construction_shape() {
    let error = ProviderError::CustomError("provider failed".to_string());

    assert_eq!(error.to_string(), "provider failed");
    assert_eq!(ProviderError::custom("provider failed"), error);
}

#[test]
fn block_numbers_for_filters_deduplicates_and_clamps_to_current_block() {
    let filters = vec![filter(1, "0x1", 10, 12), filter(2, "0x2", 11, 20)];

    assert_eq!(
        block_numbers_for_filters(&filters, 13, 0),
        vec![10, 11, 12, 13]
    );
}

#[test]
fn block_numbers_for_filters_includes_lookback_blocks() {
    let filters = vec![filter(1, "0x1", 10, 12)];

    assert_eq!(
        block_numbers_for_filters(&filters, 12, 2),
        vec![8, 9, 10, 11, 12]
    );
}

#[test]
fn blocks_for_filters_excludes_provider_reorg_lookback_blocks() {
    let filters = vec![filter(1, "0x0000000000000000000000000000000000000000", 10, 12)];
    let fetched: Vec<u64> = (8..=12).collect();

    assert_eq!(blocks_for_filters(&filters, &fetched), vec![10, 11, 12]);
}

#[test]
fn blocks_from_fork_point_includes_replacement_lookback_blocks() {
    let fetched: Vec<u64> = vec![12, 8, 10, 9, 11];

    assert_eq!(blocks_from_fork_point(&fetched, 9), vec![9, 10, 11, 12]);
}

#[test]
fn target_block_number_follows_each_finality_policy() {
    assert_eq!(finality_tag(IndexingFinality::Safe), Some(BlockTag::Safe));
    assert_eq!(finality_tag(IndexingFinality::Finalized), Some(BlockTag::Finalized));
    assert_eq!(finality_tag(IndexingFinality::LatestWithConfirmations(12)), None);
    assert_eq!(target_block_number(100, IndexingFinality::Safe, Some(90)), 90);
    assert_eq!(target_block_number(100, IndexingFinality::Finalized, Some(80)), 80);
    assert_eq!(target_block_number(100, IndexingFinality::LatestWithConfirmations(12), None), 88);
    assert_eq!(target_block_number(100, IndexingFinality::Safe, None), 100);
    assert_eq!(target_block_number(5, IndexingFinality::LatestWithConfirmations(12), None), 0);
}

#[test]
fn backoff_doubles_and_is_capped() {
    assert_eq!(backoff_delay(0, 1_000, 30_000), 1_000);
    assert_eq!(backoff_delay(1, 1_000, 30_000), 2_000);
    assert_eq!(backoff_delay(4, 1_000, 30_000), 16_000);
    assert_eq!(backoff_delay(5, 1_000, 30_000), 30_000);
    assert_eq!(backoff_delay(200, 1_000, 30_000), 30_000);
    assert_eq!(backoff_delay(63, 2, u64::MAX), u64::MAX);
    assert_eq!(backoff_delay(100, 0, 50), 0);
}

#[test]
fn retry_policy_gives_up_after_max_attempts() {
    let policy = RetryPolicy::provider_default();
    assert_eq!(policy.max_attempts, 5);
    assert_eq!(policy.after_failure(1), Some(1_000));
    assert_eq!(policy.after_failure(4), Some(8_000));
    assert_eq!(policy.after_failure(5), None);

    let normalized = RetryPolicy::normalized(0, 0, 0);
    assert_eq!(normalized.max_attempts, 1);
    assert_eq!(normalized.base_backoff_ms, 1);
    assert_eq!(normalized.max_backoff_ms, 1);
    assert_eq!(normalized.after_failure(1), None);
}
