use chaindexing::repo::{next_chunk_bounds, resolved_bounds, ContractAddressesStream};

#[test]
fn chunk_bounds_do_not_overlap_boundary_ids() {
    assert_eq!(next_chunk_bounds(1, 12, 5), Some((1, 5, 6)));
    assert_eq!(next_chunk_bounds(6, 12, 5), Some((6, 10, 11)));
    assert_eq!(next_chunk_bounds(11, 12, 5), Some((11, 12, 13)));
    assert_eq!(next_chunk_bounds(13, 12, 5), None);
}

#[test]
fn chunk_bounds_treat_non_positive_chunk_sizes_as_one() {
    assert_eq!(next_chunk_bounds(7, 9, 0), Some((7, 7, 8)));
}

#[test]
fn chunk_bounds_saturate_at_the_largest_id() {
    assert_eq!(
        next_chunk_bounds(i64::MAX - 1, i64::MAX, 10),
        Some((i64::MAX - 1, i64::MAX, i64::MAX))
    );
    assert_eq!(next_chunk_bounds(-3, 2, -5), Some((-3, -3, -2)));
}

#[test]
fn stream_walks_ids_in_chunks_of_its_size() {
    let stream = ContractAddressesStream::new(1);
    assert_eq!(stream.chunk_size, 500);
    let stream = stream.with_chunk_size(2);
    assert_eq!(stream.next_chunk(1, 5), Some((1, 2, Some(3))));
    assert_eq!(stream.next_chunk(5, 5), Some((5, 5, None)));
    assert_eq!(stream.with_chunk_size(10).next_chunk(i64::MAX - 1, i64::MAX), Some((i64::MAX - 1, i64::MAX, None)));
    assert_eq!(stream.next_chunk(6, 5), None);
    assert!(stream.min_id_query().contains("SELECT MIN(id) FROM chaindexing_contract_addresses"));
    assert!(stream.max_id_query().contains("WHERE chain_id = 1"));
    assert_eq!(resolved_bounds(None, Some(9), Some(4), None), (4, 9));
    assert_eq!(resolved_bounds(None, None, None, None), (0, 0));
}
