use chaindexing::runtime_config::{RpcPolicy, RuntimeConfig, RuntimeLimits, RuntimeWorkload};

#[test]
fn deterministic_profile_uses_single_worker_limits() {
    let config = RuntimeConfig::deterministic();

    assert_eq!(config.workload(), RuntimeWorkload::Deterministic);
    assert_eq!(config.limits_ref().max_ingester_workers_value(), 1);
    assert_eq!(config.limits_ref().max_handler_workers_value(), 1);
    assert_eq!(config.rpc_ref().max_in_flight_value(), 1);
    assert_eq!(config.rpc_ref().max_per_chain_value(), 1);
    assert!(config.validate().is_ok());
}

#[test]
fn advanced_overrides_win_over_profile_defaults() {
    let config = RuntimeConfig::backfill()
        .limits(
            RuntimeLimits::throughput()
                .db_connections(24)
                .max_ingester_workers(12)
                .max_handler_workers(10),
        )
        .rpc(RpcPolicy::throughput().max_in_flight(96).max_per_chain(24))
        .blocks_per_batch(4_000);

    assert_eq!(config.limits_ref().db_connections_value(), 24);
    assert_eq!(config.limits_ref().max_ingester_workers_value(), 12);
    assert_eq!(config.limits_ref().max_handler_workers_value(), 10);
    assert_eq!(config.rpc_ref().max_in_flight_value(), 96);
    assert_eq!(config.rpc_ref().max_per_chain_value(), 24);
    assert_eq!(config.blocks_per_batch_value(), 4_000);
    assert!(config.validate().is_ok());
}

#[test]
fn rejects_rpc_per_chain_above_global_in_flight_limit() {
    let error = RuntimeConfig::realtime()
        .rpc(RpcPolicy::limited().max_in_flight(4).max_per_chain(8))
        .validate()
        .unwrap_err();

    assert_eq!(
        error.to_string(),
        "max_rpc_per_chain must be less than or equal to max_rpc_in_flight"
    );
}

#[test]
fn resolved_summary_names_behavior_and_limits() {
    let summary = RuntimeConfig::rpc_constrained().resolved_summary();

    assert!(summary.contains("workload=RpcConstrained"));
    assert!(summary.contains("max_rpc_per_chain=2"));
    assert!(summary.contains("rpc_requests_per_second=Some(5)"));
}
