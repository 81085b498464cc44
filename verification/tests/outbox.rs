use chaindexing::outbox::{
    dead_letter_expired_jobs_query, lease_pending_jobs_query, mark_delivered_query,
    mark_failed_query, LeasedOutboxJob, OutboxDispatchConfig, UnsavedOutboxJob,
};

fn json_object(key: &str, value: &str) -> String {
    let mut map = serde_json::Map::new();
    map.insert(key.to_string(), serde_json::Value::String(value.to_string()));
    serde_json::Value::Object(map).to_string()
}

fn empty_json_object() -> String {
    serde_json::Value::Object(serde_json::Map::new()).to_string()
}

#[test]
fn insert_query_escapes_payload_and_handler_id() {
    let job = UnsavedOutboxJob {
        idempotency_key: "handler:1:0xabc:0xblock:0xtx:3".to_string(),
        chain_id: 1,
        contract_address: "0xabc".to_string(),
        event_id: uuid::Uuid::nil().as_u128(),
        handler_id: "notify'user".to_string(),
        payload: json_object("message", "owner's nft moved"),
    };

    let query = job.insert_query();

    assert!(query.contains("notify''user"));
    assert!(query.contains("owner''s nft moved"));
    assert!(query.contains("ON CONFLICT (idempotency_key)"));
}

#[test]
fn lease_pending_jobs_query_marks_jobs_as_dispatching() {
    let lease_token = uuid::Uuid::nil().as_u128();
    let query = lease_pending_jobs_query(
        OutboxDispatchConfig {
            batch_size: 10,
            max_attempts: 7,
            lease_duration_secs: 30,
            ..Default::default()
        },
        lease_token,
    );

    assert!(query.contains("SET status = 'dispatching'"));
    assert!(query.contains("attempt_count = attempt_count + 1"));
    assert!(query.contains("lease_token = '00000000-0000-0000-0000-000000000000'"));
    assert!(query.contains("lease_expires_at = NOW() + INTERVAL '30 seconds'"));
    assert!(query.contains("attempt_count < 7"));
    assert!(query.contains("FOR UPDATE SKIP LOCKED"));
    assert!(query.contains("LIMIT 10"));
    assert!(query.contains("RETURNING id, idempotency_key, chain_id, contract_address, event_id, handler_id, payload, attempt_count, lease_token"));
}

#[test]
fn lease_pending_jobs_query_recovers_expired_dispatching_jobs() {
    let query = lease_pending_jobs_query(Default::default(), uuid::Uuid::nil().as_u128());

    assert!(query.contains("status = 'dispatching'"));
    assert!(query.contains("lease_expires_at <= NOW()"));
}

#[test]
fn dead_letter_expired_jobs_query_marks_exhausted_leases_dead() {
    let query = dead_letter_expired_jobs_query(OutboxDispatchConfig {
        max_attempts: 3,
        ..Default::default()
    });

    assert!(query.contains("status = 'dead'"));
    assert!(query.contains("lease_expires_at <= NOW()"));
    assert!(query.contains("attempt_count >= 3"));
    assert!(query.contains("lease_token = NULL"));
}

fn leased_job(attempt_count: i32) -> LeasedOutboxJob {
    LeasedOutboxJob {
        id: 7,
        idempotency_key: "key".to_string(),
        chain_id: 1,
        contract_address: "0xabc".to_string(),
        event_id: uuid::Uuid::nil().as_u128(),
        handler_id: "handler".to_string(),
        payload: empty_json_object(),
        attempt_count,
        lease_token: uuid::Uuid::nil().as_u128(),
    }
}

#[test]
fn mark_failed_query_dead_letters_after_max_attempts() {
    let job = leased_job(3);

    let query = mark_failed_query(
        &job,
        "provider's API failed",
        OutboxDispatchConfig {
            max_attempts: 3,
            ..Default::default()
        },
    );

    assert!(query.contains("status = 'dead'"));
    assert!(!query.contains("attempt_count ="));
    assert!(query.contains("provider''s API failed"));
    assert!(query.contains("next_attempt_at = NULL"));
    assert!(query.contains("lease_expires_at = NULL"));
    assert!(query.contains("lease_token = NULL"));
    assert!(query.contains("lease_token = '00000000-0000-0000-0000-000000000000'"));
}

#[test]
fn mark_delivered_query_requires_current_lease_token() {
    let job = leased_job(1);

    let query = mark_delivered_query(&job);

    assert!(query.contains("status = 'delivered'"));
    assert!(query.contains("lease_token = NULL"));
    assert!(query.contains("WHERE id = 7"));
    assert!(query.contains("lease_token = '00000000-0000-0000-0000-000000000000'"));
}
