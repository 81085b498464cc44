//! Behavior-oriented runtime configuration: workload profiles, resource
//! budgets, RPC policy, and their validation.
use vstd::prelude::*;
use crate::text::{decimal, push_char, push_decimal, push_str};

verus! {

/// Behavior-oriented runtime configuration for indexing throughput, polling, and provider limits.
///
/// Prefer starting from a workload profile such as [`RuntimeConfig::realtime`] or
/// [`RuntimeConfig::backfill`], then override explicit resource budgets only when the database or
/// RPC provider capacity is known.
#[derive(Clone, Debug, Eq, PartialEq)]
pub struct RuntimeConfig {
    workload: RuntimeWorkload,
    limits: RuntimeLimits,
    rpc: RpcPolicy,
    blocks_per_batch: u64,
    ingestion_poll_interval_ms: u64,
    handler_poll_interval_ms: u64,
}

/// Workload shape selected by a [`RuntimeConfig`] profile.
#[derive(Clone, Copy, Debug, Eq, PartialEq, Structural)]
pub enum RuntimeWorkload {
    /// Single-worker, low-fanout behavior for tests and reproducible debugging.
    Deterministic,
    /// Low-latency polling for live app feeds and dashboards.
    Realtime,
    /// Higher batch and fan-out defaults for historical catch-up.
    Backfill,
    /// Moderate catch-up settings that are still suitable once the indexer reaches the head.
    CatchupThenRealtime,
    /// Conservative RPC defaults for expensive or rate-limited providers.
    RpcConstrained,
}

/// Database and worker budgets for the active indexing node.
#[derive(Clone, Debug, Eq, PartialEq)]
pub struct RuntimeLimits {
    db_connections: u32,
    max_ingester_workers: u32,
    max_handler_workers: u32,
}

/// JSON-RPC fan-out, rate, and retry policy.
#[derive(Clone, Debug, Eq, PartialEq)]
pub struct RpcPolicy {
    max_in_flight: u32,
    max_per_chain: u32,
    requests_per_second: Option<u32>,
    retry_attempts: u32,
    base_backoff_ms: u64,
    max_backoff_ms: u64,
}

/// The abstract value of a [`RuntimeLimits`].
pub struct RuntimeLimitsModel {
    pub db_connections: u32,
    pub max_ingester_workers: u32,
    pub max_handler_workers: u32,
}

/// The abstract value of an [`RpcPolicy`].
pub struct RpcPolicyModel {
    pub max_in_flight: u32,
    pub max_per_chain: u32,
    pub requests_per_second: Option<u32>,
    pub retry_attempts: u32,
    pub base_backoff_ms: u64,
    pub max_backoff_ms: u64,
}

/// The abstract value of a [`RuntimeConfig`].
pub struct RuntimeConfigModel {
    pub workload: RuntimeWorkload,
    pub limits: RuntimeLimitsModel,
    pub rpc: RpcPolicyModel,
    pub blocks_per_batch: u64,
    pub ingestion_poll_interval_ms: u64,
    pub handler_poll_interval_ms: u64,
}

impl View for RuntimeLimits {
    type V = RuntimeLimitsModel;

    closed spec fn view(&self) -> RuntimeLimitsModel {
        RuntimeLimitsModel {
            db_connections: self.db_connections,
            max_ingester_workers: self.max_ingester_workers,
            max_handler_workers: self.max_handler_workers,
        }
    }
}

impl View for RpcPolicy {
    type V = RpcPolicyModel;

    closed spec fn view(&self) -> RpcPolicyModel {
        RpcPolicyModel {
            max_in_flight: self.max_in_flight,
            max_per_chain: self.max_per_chain,
            requests_per_second: self.requests_per_second,
            retry_attempts: self.retry_attempts,
            base_backoff_ms: self.base_backoff_ms,
            max_backoff_ms: self.max_backoff_ms,
        }
    }
}

impl View for RuntimeConfig {
    type V = RuntimeConfigModel;

    closed spec fn view(&self) -> RuntimeConfigModel {
        RuntimeConfigModel {
            workload: self.workload,
            limits: self.limits@,
            rpc: self.rpc@,
            blocks_per_batch: self.blocks_per_batch,
            ingestion_poll_interval_ms: self.ingestion_poll_interval_ms,
            handler_poll_interval_ms: self.handler_poll_interval_ms,
        }
    }
}

/// Runtime configuration validation error: the offending field and what is wrong with it.
#[derive(Clone, Debug, Eq, PartialEq)]
pub struct RuntimeConfigError {
    field: &'static str,
    message: &'static str,
}

impl View for RuntimeConfigError {
    type V = (Seq<char>, Seq<char>);

    closed spec fn view(&self) -> (Seq<char>, Seq<char>) {
        (self.field@, self.message@)
    }
}

/// The abstract outcome of a validation: `None` when valid, else the failing field and message.
pub open spec fn outcome(result: Result<(), RuntimeConfigError>) -> Option<(Seq<char>, Seq<char>)> {
    match result {
        Ok(()) => None,
        Err(error) => Some(error@),
    }
}

/// The message every "must be positive" check reports.
pub open spec fn positive_message() -> Seq<char> {
    "must be greater than zero"@
}

/// The failure reported when `value` is zero.
pub open spec fn positive_check(value: int, field: Seq<char>) -> Option<(Seq<char>, Seq<char>)> {
    if value == 0 {
        Some((field, positive_message()))
    } else {
        None
    }
}

impl RuntimeConfigError {
    pub(crate) fn new(field: &'static str, message: &'static str) -> (error: Self)
        ensures
            error@ == (field@, message@),
    {
        Self { field, message }
    }

    /// The field that failed validation.
    pub fn field(&self) -> (field: &'static str)
        ensures
            field@ == self@.0,
    {
        self.field
    }

    /// What is wrong with the field.
    pub fn message(&self) -> (message: &'static str)
        ensures
            message@ == self@.1,
    {
        self.message
    }

    /// The human-readable rendering, `"{field} {message}"`.
    pub fn to_string(&self) -> (text: String)
        ensures
            text@ == self@.0 + seq![' '] + self@.1,
    {
        let mut text = String::new();
        push_str(&mut text, self.field);
        push_char(&mut text, ' ');
        push_str(&mut text, self.message);
        text
    }
}

fn non_zero(value: u64, field: &'static str) -> (result: Result<(), RuntimeConfigError>)
    ensures
        outcome(result) == positive_check(value as int, field@),
{
    if value == 0 {
        Err(RuntimeConfigError::new(field, "must be greater than zero"))
    } else {
        Ok(())
    }
}

/// The first failing check of a resource budget, in the order they are checked.
pub open spec fn limits_check(limits: RuntimeLimitsModel) -> Option<(Seq<char>, Seq<char>)> {
    if limits.db_connections == 0 {
        positive_check(0, "db_connections"@)
    } else if limits.max_ingester_workers == 0 {
        positive_check(0, "max_ingester_workers"@)
    } else if limits.max_handler_workers == 0 {
        positive_check(0, "max_handler_workers"@)
    } else {
        None
    }
}

/// The first failing check of an RPC policy, in the order they are checked.
pub open spec fn rpc_check(rpc: RpcPolicyModel) -> Option<(Seq<char>, Seq<char>)> {
    if rpc.max_in_flight == 0 {
        positive_check(0, "max_rpc_in_flight"@)
    } else if rpc.max_per_chain == 0 {
        positive_check(0, "max_rpc_per_chain"@)
    } else if rpc.retry_attempts == 0 {
        positive_check(0, "rpc_retry_attempts"@)
    } else if rpc.base_backoff_ms == 0 {
        positive_check(0, "rpc_base_backoff_ms"@)
    } else if rpc.max_backoff_ms == 0 {
        positive_check(0, "rpc_max_backoff_ms"@)
    } else if rpc.max_per_chain > rpc.max_in_flight {
        Some(("max_rpc_per_chain"@, "must be less than or equal to max_rpc_in_flight"@))
    } else if rpc.requests_per_second == Some(0u32) {
        positive_check(0, "rpc_requests_per_second"@)
    } else if rpc.base_backoff_ms > rpc.max_backoff_ms {
        Some(("rpc_base_backoff_ms"@, "must be less than or equal to rpc_max_backoff_ms"@))
    } else {
        None
    }
}

/// The first failing check of a whole configuration, in the order they are checked.
pub open spec fn config_check(config: RuntimeConfigModel) -> Option<(Seq<char>, Seq<char>)> {
    if config.blocks_per_batch == 0 {
        positive_check(0, "blocks_per_batch"@)
    } else if config.ingestion_poll_interval_ms == 0 {
        positive_check(0, "ingestion_poll_interval_ms"@)
    } else if config.handler_poll_interval_ms == 0 {
        positive_check(0, "handler_poll_interval_ms"@)
    } else if limits_check(config.limits) is Some {
        limits_check(config.limits)
    } else {
        rpc_check(config.rpc)
    }
}

/// The budget of [`RuntimeLimits::conservative`].
pub open spec fn conservative_limits() -> RuntimeLimitsModel {
    RuntimeLimitsModel { db_connections: 4, max_ingester_workers: 2, max_handler_workers: 2 }
}

/// The budget of [`RuntimeLimits::balanced`].
pub open spec fn balanced_limits() -> RuntimeLimitsModel {
    RuntimeLimitsModel { db_connections: 8, max_ingester_workers: 4, max_handler_workers: 4 }
}

/// The budget of [`RuntimeLimits::throughput`].
pub open spec fn throughput_limits() -> RuntimeLimitsModel {
    RuntimeLimitsModel { db_connections: 16, max_ingester_workers: 8, max_handler_workers: 8 }
}

/// The policy of [`RpcPolicy::limited`].
pub open spec fn limited_rpc() -> RpcPolicyModel {
    RpcPolicyModel {
        max_in_flight: 8,
        max_per_chain: 4,
        requests_per_second: None,
        retry_attempts: 5,
        base_backoff_ms: 1_000,
        max_backoff_ms: 30_000,
    }
}

/// The policy of [`RpcPolicy::balanced`].
pub open spec fn balanced_rpc() -> RpcPolicyModel {
    RpcPolicyModel { max_in_flight: 16, ..limited_rpc() }
}

/// The policy of [`RpcPolicy::throughput`].
pub open spec fn throughput_rpc() -> RpcPolicyModel {
    RpcPolicyModel {
        max_in_flight: 64,
        max_per_chain: 16,
        requests_per_second: None,
        retry_attempts: 5,
        base_backoff_ms: 500,
        max_backoff_ms: 30_000,
    }
}

impl RuntimeLimits {
    /// Conservative local/default resource budget.
    pub fn conservative() -> (limits: Self)
        ensures
            limits@ == conservative_limits(),
    {
        Self { db_connections: 4, max_ingester_workers: 2, max_handler_workers: 2 }
    }

    /// Balanced resource budget for common realtime indexing workloads.
    pub fn balanced() -> (limits: Self)
        ensures
            limits@ == balanced_limits(),
    {
        Self { db_connections: 8, max_ingester_workers: 4, max_handler_workers: 4 }
    }

    /// Larger resource budget for catch-up and backfill workloads.
    pub fn throughput() -> (limits: Self)
        ensures
            limits@ == throughput_limits(),
    {
        Self { db_connections: 16, max_ingester_workers: 8, max_handler_workers: 8 }
    }

    /// Sets the pooled Postgres connection budget for ingestion/supervisor work.
    pub fn db_connections(self, db_connections: u32) -> (limits: Self)
        ensures
            limits@ == (RuntimeLimitsModel { db_connections, ..self@ }),
    {
        Self { db_connections, ..self }
    }

    /// Sets the maximum number of ingestion workers before RPC-budget caps are applied.
    pub fn max_ingester_workers(self, max_ingester_workers: u32) -> (limits: Self)
        ensures
            limits@ == (RuntimeLimitsModel { max_ingester_workers, ..self@ }),
    {
        Self { max_ingester_workers, ..self }
    }

    /// Sets the maximum number of handler workers.
    pub fn max_handler_workers(self, max_handler_workers: u32) -> (limits: Self)
        ensures
            limits@ == (RuntimeLimitsModel { max_handler_workers, ..self@ }),
    {
        Self { max_handler_workers, ..self }
    }

    pub fn db_connections_value(&self) -> (value: u32)
        ensures
            value == self@.db_connections,
    {
        self.db_connections
    }

    pub fn max_ingester_workers_value(&self) -> (value: u32)
        ensures
            value == self@.max_ingester_workers,
    {
        self.max_ingester_workers
    }

    pub fn max_handler_workers_value(&self) -> (value: u32)
        ensures
            value == self@.max_handler_workers,
    {
        self.max_handler_workers
    }

    fn validate(&self) -> (result: Result<(), RuntimeConfigError>)
        ensures
            outcome(result) == limits_check(self@),
    {
        non_zero(self.db_connections as u64, "db_connections")?;
        non_zero(self.max_ingester_workers as u64, "max_ingester_workers")?;
        non_zero(self.max_handler_workers as u64, "max_handler_workers")
    }
}

impl RpcPolicy {
    /// Conservative RPC fan-out and retry defaults.
    pub fn limited() -> (policy: Self)
        ensures
            policy@ == limited_rpc(),
    {
        Self {
            max_in_flight: 8,
            max_per_chain: 4,
            requests_per_second: None,
            retry_attempts: 5,
            base_backoff_ms: 1_000,
            max_backoff_ms: 30_000,
        }
    }

    /// Balanced RPC fan-out and retry defaults.
    pub fn balanced() -> (policy: Self)
        ensures
            policy@ == balanced_rpc(),
    {
        Self {
            max_in_flight: 16,
            max_per_chain: 4,
            requests_per_second: None,
            retry_attempts: 5,
            base_backoff_ms: 1_000,
            max_backoff_ms: 30_000,
        }
    }

    /// Higher RPC fan-out defaults for providers and workloads that can absorb it.
    pub fn throughput() -> (policy: Self)
        ensures
            policy@ == throughput_rpc(),
    {
        Self {
            max_in_flight: 64,
            max_per_chain: 16,
            requests_per_second: None,
            retry_attempts: 5,
            base_backoff_ms: 500,
            max_backoff_ms: 30_000,
        }
    }

    /// Sets the global JSON-RPC in-flight budget used to cap effective ingestion workers.
    pub fn max_in_flight(self, max_in_flight: u32) -> (policy: Self)
        ensures
            policy@ == (RpcPolicyModel { max_in_flight, ..self@ }),
    {
        Self { max_in_flight, ..self }
    }

    /// Sets the maximum concurrent JSON-RPC log requests issued by a single chain worker.
    pub fn max_per_chain(self, max_per_chain: u32) -> (policy: Self)
        ensures
            policy@ == (RpcPolicyModel { max_per_chain, ..self@ }),
    {
        Self { max_per_chain, ..self }
    }

    /// Sets an optional JSON-RPC request-rate hint for rate-limited providers.
    pub fn requests_per_second(self, requests_per_second: u32) -> (policy: Self)
        ensures
            policy@ == (RpcPolicyModel { requests_per_second: Some(requests_per_second), ..self@ }),
    {
        Self { requests_per_second: Some(requests_per_second), ..self }
    }

    /// Sets the total number of provider attempts before returning the last error.
    pub fn retry_attempts(self, retry_attempts: u32) -> (policy: Self)
        ensures
            policy@ == (RpcPolicyModel { retry_attempts, ..self@ }),
    {
        Self { retry_attempts, ..self }
    }

    /// Sets the initial retry backoff delay in milliseconds.
    pub fn base_backoff_ms(self, base_backoff_ms: u64) -> (policy: Self)
        ensures
            policy@ == (RpcPolicyModel { base_backoff_ms, ..self@ }),
    {
        Self { base_backoff_ms, ..self }
    }

    /// Sets the maximum retry backoff delay in milliseconds.
    pub fn max_backoff_ms(self, max_backoff_ms: u64) -> (policy: Self)
        ensures
            policy@ == (RpcPolicyModel { max_backoff_ms, ..self@ }),
    {
        Self { max_backoff_ms, ..self }
    }

    pub fn max_in_flight_value(&self) -> (value: u32)
        ensures
            value == self@.max_in_flight,
    {
        self.max_in_flight
    }

    pub fn max_per_chain_value(&self) -> (value: u32)
        ensures
            value == self@.max_per_chain,
    {
        self.max_per_chain
    }

    pub fn requests_per_second_value(&self) -> (value: Option<u32>)
        ensures
            value == self@.requests_per_second,
    {
        self.requests_per_second
    }

    pub fn retry_attempts_value(&self) -> (value: u32)
        ensures
            value == self@.retry_attempts,
    {
        self.retry_attempts
    }

    pub fn base_backoff_ms_value(&self) -> (value: u64)
        ensures
            value == self@.base_backoff_ms,
    {
        self.base_backoff_ms
    }

    pub fn max_backoff_ms_value(&self) -> (value: u64)
        ensures
            value == self@.max_backoff_ms,
    {
        self.max_backoff_ms
    }

    fn validate(&self) -> (result: Result<(), RuntimeConfigError>)
        ensures
            outcome(result) == rpc_check(self@),
    {
        non_zero(self.max_in_flight as u64, "max_rpc_in_flight")?;
        non_zero(self.max_per_chain as u64, "max_rpc_per_chain")?;
        non_zero(self.retry_attempts as u64, "rpc_retry_attempts")?;
        non_zero(self.base_backoff_ms, "rpc_base_backoff_ms")?;
        non_zero(self.max_backoff_ms, "rpc_max_backoff_ms")?;
        if self.max_per_chain > self.max_in_flight {
            return Err(
                RuntimeConfigError::new(
                    "max_rpc_per_chain",
                    "must be less than or equal to max_rpc_in_flight",
                ),
            );
        }
        if let Some(requests_per_second) = self.requests_per_second {
            non_zero(requests_per_second as u64, "rpc_requests_per_second")?;
        }
        if self.base_backoff_ms > self.max_backoff_ms {
            return Err(
                RuntimeConfigError::new(
                    "rpc_base_backoff_ms",
                    "must be less than or equal to rpc_max_backoff_ms",
                ),
            );
        }
        Ok(())
    }
}

/// The `Debug` name of a workload.
pub open spec fn workload_name(workload: RuntimeWorkload) -> Seq<char> {
    match workload {
        RuntimeWorkload::Deterministic => "Deterministic"@,
        RuntimeWorkload::Realtime => "Realtime"@,
        RuntimeWorkload::Backfill => "Backfill"@,
        RuntimeWorkload::CatchupThenRealtime => "CatchupThenRealtime"@,
        RuntimeWorkload::RpcConstrained => "RpcConstrained"@,
    }
}

/// The `Debug` rendering of an optional rate.
pub open spec fn optional_rate_text(rate: Option<u32>) -> Seq<char> {
    match rate {
        Some(r) => "Some("@ + decimal(r as nat) + ")"@,
        None => "None"@,
    }
}

/// The one-line summary of a resolved configuration.
pub open spec fn summary_text(c: RuntimeConfigModel) -> Seq<char> {
    "workload="@ + workload_name(c.workload) + ", db_connections="@ + decimal(
        c.limits.db_connections as nat,
    ) + ", max_ingester_workers="@ + decimal(c.limits.max_ingester_workers as nat)
        + ", max_handler_workers="@ + decimal(c.limits.max_handler_workers as nat)
        + ", max_rpc_in_flight="@ + decimal(c.rpc.max_in_flight as nat) + ", max_rpc_per_chain="@
        + decimal(c.rpc.max_per_chain as nat) + ", rpc_requests_per_second="@ + optional_rate_text(
        c.rpc.requests_per_second,
    ) + ", blocks_per_batch="@ + decimal(c.blocks_per_batch as nat)
        + ", ingestion_poll_interval_ms="@ + decimal(c.ingestion_poll_interval_ms as nat)
        + ", handler_poll_interval_ms="@ + decimal(c.handler_poll_interval_ms as nat)
}

/// The settings used when no profile is chosen: realtime polling with the
/// historical four-worker budget and slow polling.
pub open spec fn legacy_config() -> RuntimeConfigModel {
    RuntimeConfigModel {
        workload: RuntimeWorkload::Realtime,
        limits: RuntimeLimitsModel { db_connections: 4, max_ingester_workers: 4, max_handler_workers: 4 },
        rpc: balanced_rpc(),
        blocks_per_batch: 450,
        ingestion_poll_interval_ms: 20_000,
        handler_poll_interval_ms: 4_000,
    }
}

impl RuntimeConfig {
    pub(crate) fn legacy_compatible() -> (config: Self)
        ensures
            config@ == legacy_config(),
    {
        Self {
            workload: RuntimeWorkload::Realtime,
            limits: RuntimeLimits { db_connections: 4, max_ingester_workers: 4, max_handler_workers: 4 },
            rpc: RpcPolicy::balanced(),
            blocks_per_batch: 450,
            ingestion_poll_interval_ms: 20_000,
            handler_poll_interval_ms: 4_000,
        }
    }

    /// Single-worker profile for tests and reproducible debugging.
    pub fn deterministic() -> (config: Self)
        ensures
            config@ == (RuntimeConfigModel {
                workload: RuntimeWorkload::Deterministic,
                limits: RuntimeLimitsModel { db_connections: 2, max_ingester_workers: 1, max_handler_workers: 1 },
                rpc: RpcPolicyModel { max_in_flight: 1, max_per_chain: 1, ..limited_rpc() },
                blocks_per_batch: 25,
                ingestion_poll_interval_ms: 1_000,
                handler_poll_interval_ms: 1_000,
            }),
    {
        Self {
            workload: RuntimeWorkload::Deterministic,
            limits: RuntimeLimits::conservative().db_connections(2).max_ingester_workers(
                1,
            ).max_handler_workers(1),
            rpc: RpcPolicy::limited().max_in_flight(1).max_per_chain(1),
            blocks_per_batch: 25,
            ingestion_poll_interval_ms: 1_000,
            handler_poll_interval_ms: 1_000,
        }
    }

    /// Low-latency profile for live app feeds and dashboards.
    pub fn realtime() -> (config: Self)
        ensures
            config@ == (RuntimeConfigModel {
                workload: RuntimeWorkload::Realtime,
                limits: balanced_limits(),
                rpc: balanced_rpc(),
                blocks_per_batch: 450,
                ingestion_poll_interval_ms: 2_000,
                handler_poll_interval_ms: 1_000,
            }),
    {
        Self {
            workload: RuntimeWorkload::Realtime,
            limits: RuntimeLimits::balanced(),
            rpc: RpcPolicy::balanced(),
            blocks_per_batch: 450,
            ingestion_poll_interval_ms: 2_000,
            handler_poll_interval_ms: 1_000,
        }
    }

    /// Throughput-oriented profile for historical catch-up.
    pub fn backfill() -> (config: Self)
        ensures
            config@ == (RuntimeConfigModel {
                workload: RuntimeWorkload::Backfill,
                limits: throughput_limits(),
                rpc: throughput_rpc(),
                blocks_per_batch: 2_000,
                ingestion_poll_interval_ms: 250,
                handler_poll_interval_ms: 250,
            }),
    {
        Self {
            workload: RuntimeWorkload::Backfill,
            limits: RuntimeLimits::throughput(),
            rpc: RpcPolicy::throughput(),
            blocks_per_batch: 2_000,
            ingestion_poll_interval_ms: 250,
            handler_poll_interval_ms: 250,
        }
    }

    /// Profile for apps that need to catch up quickly, then remain suitable for realtime indexing.
    pub fn catchup_then_realtime() -> (config: Self)
        ensures
            config@ == (RuntimeConfigModel {
                workload: RuntimeWorkload::CatchupThenRealtime,
                limits: RuntimeLimitsModel { max_ingester_workers: 6, max_handler_workers: 6, ..balanced_limits() },
                rpc: RpcPolicyModel { max_in_flight: 32, max_per_chain: 8, ..balanced_rpc() },
                blocks_per_batch: 1_000,
                ingestion_poll_interval_ms: 1_000,
                handler_poll_interval_ms: 500,
            }),
    {
        Self {
            workload: RuntimeWorkload::CatchupThenRealtime,
            limits: RuntimeLimits::balanced().max_ingester_workers(6).max_handler_workers(6),
            rpc: RpcPolicy::balanced().max_in_flight(32).max_per_chain(8),
            blocks_per_batch: 1_000,
            ingestion_poll_interval_ms: 1_000,
            handler_poll_interval_ms: 500,
        }
    }

    /// Conservative profile for expensive or rate-limited RPC providers.
    pub fn rpc_constrained() -> (config: Self)
        ensures
            config@ == (RuntimeConfigModel {
                workload: RuntimeWorkload::RpcConstrained,
                limits: conservative_limits(),
                rpc: RpcPolicyModel {
                    max_in_flight: 4,
                    max_per_chain: 2,
                    requests_per_second: Some(5u32),
                    ..limited_rpc()
                },
                blocks_per_batch: 200,
                ingestion_poll_interval_ms: 10_000,
                handler_poll_interval_ms: 4_000,
            }),
    {
        Self {
            workload: RuntimeWorkload::RpcConstrained,
            limits: RuntimeLimits::conservative(),
            rpc: RpcPolicy::limited().max_in_flight(4).max_per_chain(2).requests_per_second(5),
            blocks_per_batch: 200,
            ingestion_poll_interval_ms: 10_000,
            handler_poll_interval_ms: 4_000,
        }
    }

    pub fn limits(self, limits: RuntimeLimits) -> (config: Self)
        ensures
            config@ == (RuntimeConfigModel { limits: limits@, ..self@ }),
    {
        Self { limits, ..self }
    }

    pub fn rpc(self, rpc: RpcPolicy) -> (config: Self)
        ensures
            config@ == (RuntimeConfigModel { rpc: rpc@, ..self@ }),
    {
        Self { rpc, ..self }
    }

    pub fn blocks_per_batch(self, blocks_per_batch: u64) -> (config: Self)
        ensures
            config@ == (RuntimeConfigModel { blocks_per_batch, ..self@ }),
    {
        Self { blocks_per_batch, ..self }
    }

    pub fn ingestion_poll_interval_ms(self, ingestion_poll_interval_ms: u64) -> (config: Self)
        ensures
            config@ == (RuntimeConfigModel { ingestion_poll_interval_ms, ..self@ }),
    {
        Self { ingestion_poll_interval_ms, ..self }
    }

    pub fn handler_poll_interval_ms(self, handler_poll_interval_ms: u64) -> (config: Self)
        ensures
            config@ == (RuntimeConfigModel { handler_poll_interval_ms, ..self@ }),
    {
        Self { handler_poll_interval_ms, ..self }
    }

    pub fn workload(&self) -> (workload: RuntimeWorkload)
        ensures
            workload == self@.workload,
    {
        self.workload
    }

    pub fn limits_ref(&self) -> (limits: &RuntimeLimits)
        ensures
            limits@ == self@.limits,
    {
        &self.limits
    }

    pub fn rpc_ref(&self) -> (rpc: &RpcPolicy)
        ensures
            rpc@ == self@.rpc,
    {
        &self.rpc
    }

    pub fn blocks_per_batch_value(&self) -> (value: u64)
        ensures
            value == self@.blocks_per_batch,
    {
        self.blocks_per_batch
    }

    pub fn ingestion_poll_interval_ms_value(&self) -> (value: u64)
        ensures
            value == self@.ingestion_poll_interval_ms,
    {
        self.ingestion_poll_interval_ms
    }

    pub fn handler_poll_interval_ms_value(&self) -> (value: u64)
        ensures
            value == self@.handler_poll_interval_ms,
    {
        self.handler_poll_interval_ms
    }

    /// Checks every budget and policy value; the first failing check is reported.
    pub fn validate(&self) -> (result: Result<(), RuntimeConfigError>)
        ensures
            outcome(result) == config_check(self@),
    {
        non_zero(self.blocks_per_batch, "blocks_per_batch")?;
        non_zero(self.ingestion_poll_interval_ms, "ingestion_poll_interval_ms")?;
        non_zero(self.handler_poll_interval_ms, "handler_poll_interval_ms")?;
        self.limits.validate()?;
        self.rpc.validate()?;
        Ok(())
    }

    /// A one-line summary naming the workload and every resolved limit.
    pub fn resolved_summary(&self) -> (summary: String)
        ensures
            summary@ == summary_text(self@),
    {
        let mut s = String::new();
        push_str(&mut s, "workload=");
        match self.workload {
            RuntimeWorkload::Deterministic => push_str(&mut s, "Deterministic"),
            RuntimeWorkload::Realtime => push_str(&mut s, "Realtime"),
            RuntimeWorkload::Backfill => push_str(&mut s, "Backfill"),
            RuntimeWorkload::CatchupThenRealtime => push_str(&mut s, "CatchupThenRealtime"),
            RuntimeWorkload::RpcConstrained => push_str(&mut s, "RpcConstrained"),
        }
        push_str(&mut s, ", db_connections=");
        push_decimal(&mut s, self.limits.db_connections as u64);
        push_str(&mut s, ", max_ingester_workers=");
        push_decimal(&mut s, self.limits.max_ingester_workers as u64);
        push_str(&mut s, ", max_handler_workers=");
        push_decimal(&mut s, self.limits.max_handler_workers as u64);
        push_str(&mut s, ", max_rpc_in_flight=");
        push_decimal(&mut s, self.rpc.max_in_flight as u64);
        push_str(&mut s, ", max_rpc_per_chain=");
        push_decimal(&mut s, self.rpc.max_per_chain as u64);
        push_str(&mut s, ", rpc_requests_per_second=");
        match self.rpc.requests_per_second {
            Some(rate) => {
                push_str(&mut s, "Some(");
                push_decimal(&mut s, rate as u64);
                push_str(&mut s, ")");
            },
            None => push_str(&mut s, "None"),
        }
        push_str(&mut s, ", blocks_per_batch=");
        push_decimal(&mut s, self.blocks_per_batch);
        push_str(&mut s, ", ingestion_poll_interval_ms=");
        push_decimal(&mut s, self.ingestion_poll_interval_ms);
        push_str(&mut s, ", handler_poll_interval_ms=");
        push_decimal(&mut s, self.handler_poll_interval_ms);
        s
    }
}

impl Default for RuntimeConfig {
    fn default() -> (config: Self)
        ensures
            config@ == legacy_config(),
    {
        Self::legacy_compatible()
    }
}

} // verus!
