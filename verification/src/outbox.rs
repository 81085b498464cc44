//! The durable outbox: enqueueing side effects idempotently, leasing due jobs,
//! and recording each dispatch's outcome with bounded, capped-exponential retry.
use vstd::prelude::*;
use crate::events::Event;
use crate::text::{
    decimal, decimal_signed, escape_quotes, join, push_char, push_decimal, push_decimal_signed,
    push_escaped, push_str, string_views, to_owned_string,
};

verus! {

/// The lowercase hexadecimal digit of `n` (for `0 <= n < 16`).
pub open spec fn hex_digit(n: int) -> char {
    if n < 10 {
        ('0' as int + n) as char
    } else {
        ('a' as int + n - 10) as char
    }
}

/// The `i`-th of the 32 hexadecimal digits of `value`, most significant first.
pub open spec fn uuid_nibble(value: u128, i: int) -> u128 {
    (value >> ((4 * (31 - i)) as u128)) & 15u128
}

/// The 32 lowercase hexadecimal digits of `value`, most significant first (the
/// UUID's big-endian bytes, two digits each).
pub open spec fn uuid_hex_digits(value: u128) -> Seq<char> {
    Seq::new(32, |i: int| hex_digit(uuid_nibble(value, i) as int))
}

/// The hyphenated lowercase text of a UUID: its hexadecimal digits in groups of
/// 8, 4, 4, 4 and 12, joined by `-`.
pub open spec fn uuid_hyphenated_text(value: u128) -> Seq<char> {
    let d = uuid_hex_digits(value);
    d.subrange(0, 8) + seq!['-'] + d.subrange(8, 12) + seq!['-'] + d.subrange(12, 16) + seq!['-']
        + d.subrange(16, 20) + seq!['-'] + d.subrange(20, 32)
}

/// The lowercase hexadecimal digit of a value below 16.
fn hex_char(n: u128) -> (c: char)
    requires
        n < 16,
    ensures
        c == hex_digit(n as int),
{
    if n == 0 { '0' } else if n == 1 { '1' } else if n == 2 { '2' } else if n == 3 { '3' }
    else if n == 4 { '4' } else if n == 5 { '5' } else if n == 6 { '6' } else if n == 7 { '7' }
    else if n == 8 { '8' } else if n == 9 { '9' } else if n == 10 { 'a' } else if n == 11 { 'b' }
    else if n == 12 { 'c' } else if n == 13 { 'd' } else if n == 14 { 'e' } else { 'f' }
}

/// The 32 hexadecimal digits of a UUID's value.
fn uuid_digits(value: u128) -> (digits: Vec<char>)
    ensures
        digits@ == uuid_hex_digits(value),
{
    let mut digits: Vec<char> = Vec::new();
    let mut i: u128 = 0;
    while i < 32
        invariant
            i <= 32,
            digits@ == uuid_hex_digits(value).take(i as int),
        decreases 32 - i,
    {
        let shift: u128 = 4 * (31 - i);
        let nibble = (value >> shift) & 15;
        assert(((value >> shift) & 15u128) <= 15u128) by (bit_vector);
        assert(shift == (4 * (31 - i)) as u128);
        assert(nibble == uuid_nibble(value, i as int));
        digits.push(hex_char(nibble));
        assert(digits@ == uuid_hex_digits(value).take(i as int + 1));
        i = i + 1;
    }
    assert(uuid_hex_digits(value).take(32) == uuid_hex_digits(value));
    digits
}

/// Appends `digits[from..to]`.
fn push_digits(out: &mut String, digits: &Vec<char>, from: usize, to: usize)
    requires
        from <= to <= digits@.len(),
    ensures
        final(out)@ == old(out)@ + digits@.subrange(from as int, to as int),
{
    let ghost start = out@;
    let mut k: usize = from;
    while k < to
        invariant
            from <= k <= to <= digits@.len(),
            out@ == start + digits@.subrange(from as int, k as int),
        decreases to - k,
    {
        push_char(out, digits[k]);
        assert(digits@.subrange(from as int, k + 1) == digits@.subrange(from as int, k as int).push(digits@[k as int]));
        k = k + 1;
    }
}

/// Appends the hyphenated lowercase text of the UUID with the 128-bit value `value`
/// (what `uuid::Uuid::from_u128(value)` prints).
fn push_uuid(out: &mut String, value: u128)
    ensures
        final(out)@ == old(out)@ + uuid_hyphenated_text(value),
{
    let ghost start = out@;
    let digits = uuid_digits(value);
    let ghost d = digits@;
    push_digits(out, &digits, 0, 8);
    push_char(out, '-');
    push_digits(out, &digits, 8, 12);
    push_char(out, '-');
    push_digits(out, &digits, 12, 16);
    push_char(out, '-');
    push_digits(out, &digits, 16, 20);
    push_char(out, '-');
    push_digits(out, &digits, 20, 32);
    assert(out@ =~= start + uuid_hyphenated_text(value));
}

/// A durable outbox job handed to a dispatcher.
#[derive(Debug, Clone, PartialEq)]
pub struct OutboxJob {
    pub id: i64,
    pub idempotency_key: String,
    pub chain_id: i64,
    pub contract_address: String,
    /// The UUID of the event that enqueued the job, as a 128-bit value.
    pub event_id: u128,
    pub handler_id: String,
    /// The job's JSON payload, as text.
    pub payload: String,
    pub attempt_count: i32,
}

/// A job leased for dispatch under a lease token.
#[derive(Debug, Clone, PartialEq)]
pub struct LeasedOutboxJob {
    pub id: i64,
    pub idempotency_key: String,
    pub chain_id: i64,
    pub contract_address: String,
    pub event_id: u128,
    pub handler_id: String,
    pub payload: String,
    pub attempt_count: i32,
    /// The lease token, a UUID as a 128-bit value.
    pub lease_token: u128,
}

impl OutboxJob {
    /// The dispatcher's view of a leased job: everything but the lease token.
    pub fn from_leased(job: &LeasedOutboxJob) -> (out: Self)
        ensures
            out.id == job.id,
            out.idempotency_key@ == job.idempotency_key@,
            out.chain_id == job.chain_id,
            out.contract_address@ == job.contract_address@,
            out.event_id == job.event_id,
            out.handler_id@ == job.handler_id@,
            out.payload@ == job.payload@,
            out.attempt_count == job.attempt_count,
    {
        Self {
            id: job.id,
            idempotency_key: to_owned_string(job.idempotency_key.as_str()),
            chain_id: job.chain_id,
            contract_address: to_owned_string(job.contract_address.as_str()),
            event_id: job.event_id,
            handler_id: to_owned_string(job.handler_id.as_str()),
            payload: to_owned_string(job.payload.as_str()),
            attempt_count: job.attempt_count,
        }
    }
}

/// Configuration for dispatching pending outbox jobs.
#[derive(Debug, Clone, Copy)]
pub struct OutboxDispatchConfig {
    pub batch_size: u64,
    pub max_attempts: u32,
    pub base_retry_delay_secs: u64,
    pub lease_duration_secs: u64,
}

impl Default for OutboxDispatchConfig {
    fn default() -> (config: Self)
        ensures
            config.batch_size == 100,
            config.max_attempts == 10,
            config.base_retry_delay_secs == 5,
            config.lease_duration_secs == 300,
    {
        Self { batch_size: 100, max_attempts: 10, base_retry_delay_secs: 5, lease_duration_secs: 300 }
    }
}

/// Result returned after an outbox job is enqueued.
#[derive(Debug, Clone, Eq, PartialEq)]
pub struct OutboxReceipt {
    pub idempotency_key: String,
}

impl OutboxReceipt {
    pub(crate) fn new(idempotency_key: String) -> (receipt: Self)
        ensures
            receipt.idempotency_key == idempotency_key,
    {
        Self { idempotency_key }
    }
}

/// A job about to be enqueued.
#[derive(Debug, Clone, Eq, PartialEq)]
pub struct UnsavedOutboxJob {
    pub idempotency_key: String,
    pub chain_id: i64,
    pub contract_address: String,
    pub event_id: u128,
    pub handler_id: String,
    /// The JSON payload, as text.
    pub payload: String,
}

/// The abstract value of an [`UnsavedOutboxJob`].
pub struct UnsavedOutboxJobModel {
    pub idempotency_key: Seq<char>,
    pub chain_id: i64,
    pub contract_address: Seq<char>,
    pub event_id: u128,
    pub handler_id: Seq<char>,
    pub payload: Seq<char>,
}

impl View for UnsavedOutboxJob {
    type V = UnsavedOutboxJobModel;

    open spec fn view(&self) -> UnsavedOutboxJobModel {
        UnsavedOutboxJobModel {
            idempotency_key: self.idempotency_key@,
            chain_id: self.chain_id,
            contract_address: self.contract_address@,
            event_id: self.event_id,
            handler_id: self.handler_id@,
            payload: self.payload@,
        }
    }
}

/// The key that makes enqueueing idempotent: handler, chain, contract, block hash,
/// transaction hash and log index of the event, joined by `:`.
pub open spec fn idempotency_key_text(event: crate::events::EventModel, handler_id: Seq<char>) -> Seq<char> {
    join(
        seq![
            handler_id,
            decimal_signed(event.chain_id as int),
            event.contract_address,
            event.block_hash,
            event.transaction_hash,
            decimal_signed(event.log_index as int),
        ],
        seq![':'],
    )
}

/// The idempotency key of an event's job for a handler.
pub fn idempotency_key(event: &Event, handler_id: &str) -> (key: String)
    ensures
        key@ == idempotency_key_text(event@, handler_id@),
{
    let mut parts: Vec<String> = Vec::new();
    parts.push(to_owned_string(handler_id));
    let mut chain = String::new();
    push_decimal_signed(&mut chain, event.chain_id);
    parts.push(chain);
    parts.push(to_owned_string(event.contract_address.as_str()));
    parts.push(to_owned_string(event.block_hash.as_str()));
    parts.push(to_owned_string(event.transaction_hash.as_str()));
    let mut log_index = String::new();
    push_decimal_signed(&mut log_index, event.log_index as i64);
    parts.push(log_index);
    let mut key = String::new();
    crate::text::push_joined(&mut key, &parts, ":");
    proof {
        assert(string_views(parts@) == seq![
            handler_id@,
            decimal_signed(event.chain_id as int),
            event.contract_address@,
            event.block_hash@,
            event.transaction_hash@,
            decimal_signed(event.log_index as int),
        ]);
        reveal_strlit(":");
        assert(":"@ == seq![':']);
    }
    key
}

/// The statement inserting a job unless its idempotency key already exists.
pub open spec fn insert_job_sql(job: UnsavedOutboxJobModel) -> Seq<char> {
    "INSERT INTO chaindexing_outbox\n                (idempotency_key, chain_id, contract_address, event_id, handler_id, payload, status)\n             VALUES ('"@
        + escape_quotes(job.idempotency_key)
        + "', "@
        + decimal_signed(job.chain_id as int)
        + ", '"@
        + escape_quotes(job.contract_address)
        + "', '"@
        + uuid_hyphenated_text(job.event_id)
        + "', '"@
        + escape_quotes(job.handler_id)
        + "', '"@
        + escape_quotes(job.payload)
        + "'::jsonb, 'pending')\n             ON CONFLICT (idempotency_key)\n             DO NOTHING"@
}

impl UnsavedOutboxJob {
    /// A job of `event` for `handler_id` carrying `payload` (JSON text).
    pub fn new(event: &Event, handler_id: &str, payload: String) -> (job: Self)
        ensures
            job@ == (UnsavedOutboxJobModel {
                idempotency_key: idempotency_key_text(event@, handler_id@),
                chain_id: event.chain_id,
                contract_address: event.contract_address@,
                event_id: event.id,
                handler_id: handler_id@,
                payload: payload@,
            }),
    {
        Self {
            idempotency_key: idempotency_key(event, handler_id),
            chain_id: event.chain_id,
            contract_address: to_owned_string(event.contract_address.as_str()),
            event_id: event.id,
            handler_id: to_owned_string(handler_id),
            payload,
        }
    }

    /// The receipt naming the job's idempotency key.
    pub fn receipt(&self) -> (receipt: OutboxReceipt)
        ensures
            receipt.idempotency_key@ == self.idempotency_key@,
    {
        OutboxReceipt::new(to_owned_string(self.idempotency_key.as_str()))
    }

    /// The insert statement, with every text value escaped.
    pub fn insert_query(&self) -> (sql: String)
        ensures
            sql@ == insert_job_sql(self@),
    {
        let mut sql = String::new();
        push_str(&mut sql, "INSERT INTO chaindexing_outbox\n                (idempotency_key, chain_id, contract_address, event_id, handler_id, payload, status)\n             VALUES ('");
        push_escaped(&mut sql, self.idempotency_key.as_str());
        push_str(&mut sql, "', ");
        push_decimal_signed(&mut sql, self.chain_id);
        push_str(&mut sql, ", '");
        push_escaped(&mut sql, self.contract_address.as_str());
        push_str(&mut sql, "', '");
        push_uuid(&mut sql, self.event_id);
        push_str(&mut sql, "', '");
        push_escaped(&mut sql, self.handler_id.as_str());
        push_str(&mut sql, "', '");
        push_escaped(&mut sql, self.payload.as_str());
        push_str(&mut sql, "'::jsonb, 'pending')\n             ON CONFLICT (idempotency_key)\n             DO NOTHING");
        sql
    }
}

/// The attempt budget actually enforced: at least one.
pub open spec fn effective_max_attempts(config: OutboxDispatchConfig) -> u32 {
    if config.max_attempts == 0 { 1 } else { config.max_attempts }
}

/// The statement leasing up to `batch_size` jobs that still have attempts left and
/// are either due pending jobs or dispatching jobs whose lease expired.
pub open spec fn lease_pending_jobs_sql(config: OutboxDispatchConfig, lease_token: u128) -> Seq<char> {
    "UPDATE chaindexing_outbox\n         SET status = 'dispatching',\n             attempt_count = attempt_count + 1,\n             lease_token = '"@
        + uuid_hyphenated_text(lease_token)
        + "',\n             lease_expires_at = NOW() + INTERVAL '"@
        + decimal((if config.lease_duration_secs == 0 { 1 } else { config.lease_duration_secs }) as nat)
        + " seconds',\n             updated_at = NOW()\n         WHERE id IN (\n             SELECT id\n             FROM chaindexing_outbox\n             WHERE attempt_count < "@
        + decimal(effective_max_attempts(config) as nat)
        + "\n               AND (\n                 (\n                    status = 'pending'\n                    AND (next_attempt_at IS NULL OR next_attempt_at <= NOW())\n                 )\n                 OR (\n                    status = 'dispatching'\n                    AND lease_expires_at <= NOW()\n                 )\n                )\n             ORDER BY id ASC\n             LIMIT "@
        + decimal(config.batch_size as nat)
        + "\n             FOR UPDATE SKIP LOCKED\n         )\n         RETURNING id, idempotency_key, chain_id, contract_address, event_id, handler_id, payload, attempt_count, lease_token"@
}

/// A pending job is leased only once its next attempt is due: the lease statement's
/// condition on pending jobs is that no next attempt is scheduled or that it is not
/// in the future.
pub proof fn lemma_lease_waits_for_due_attempts(config: OutboxDispatchConfig, lease_token: u128)
    ensures
        crate::char_seq::contains_text(
            lease_pending_jobs_sql(config, lease_token),
            "status = 'pending'\n                    AND (next_attempt_at IS NULL OR next_attempt_at <= NOW())"@,
        ),
{
    let pattern = "status = 'pending'\n                    AND (next_attempt_at IS NULL OR next_attempt_at <= NOW())"@;
    let piece = "\n               AND (\n                 (\n                    status = 'pending'\n                    AND (next_attempt_at IS NULL OR next_attempt_at <= NOW())\n                 )\n                 OR (\n                    status = 'dispatching'\n                    AND lease_expires_at <= NOW()\n                 )\n                )\n             ORDER BY id ASC\n             LIMIT "@;
    reveal_strlit("status = 'pending'\n                    AND (next_attempt_at IS NULL OR next_attempt_at <= NOW())");
    reveal_strlit("\n               AND (\n                 (\n                    status = 'pending'\n                    AND (next_attempt_at IS NULL OR next_attempt_at <= NOW())\n                 )\n                 OR (\n                    status = 'dispatching'\n                    AND lease_expires_at <= NOW()\n                 )\n                )\n             ORDER BY id ASC\n             LIMIT ");
    assert(piece.subrange(61, 61 + pattern.len() as int) =~= pattern);
    let sql = lease_pending_jobs_sql(config, lease_token);
    let before = "UPDATE chaindexing_outbox\n         SET status = 'dispatching',\n             attempt_count = attempt_count + 1,\n             lease_token = '"@
        + uuid_hyphenated_text(lease_token)
        + "',\n             lease_expires_at = NOW() + INTERVAL '"@
        + decimal((if config.lease_duration_secs == 0 { 1 } else { config.lease_duration_secs }) as nat)
        + " seconds',\n             updated_at = NOW()\n         WHERE id IN (\n             SELECT id\n             FROM chaindexing_outbox\n             WHERE attempt_count < "@
        + decimal(effective_max_attempts(config) as nat);
    let after = decimal(config.batch_size as nat)
        + "\n             FOR UPDATE SKIP LOCKED\n         )\n         RETURNING id, idempotency_key, chain_id, contract_address, event_id, handler_id, payload, attempt_count, lease_token"@;
    assert(sql =~= before + piece + after);
    crate::char_seq::lemma_occurs_within(before, piece, after, pattern, 61);
}

/// The statement leasing due jobs under `lease_token` (a UUID as a 128-bit value);
/// every lease counts as an attempt.
pub fn lease_pending_jobs_query(config: OutboxDispatchConfig, lease_token: u128) -> (sql: String)
    ensures
        sql@ == lease_pending_jobs_sql(config, lease_token),
{
    let mut sql = String::new();
    push_str(&mut sql, "UPDATE chaindexing_outbox\n         SET status = 'dispatching',\n             attempt_count = attempt_count + 1,\n             lease_token = '");
    push_uuid(&mut sql, lease_token);
    push_str(&mut sql, "',\n             lease_expires_at = NOW() + INTERVAL '");
    push_decimal(&mut sql, if config.lease_duration_secs < 1 { 1 } else { config.lease_duration_secs });
    push_str(&mut sql, " seconds',\n             updated_at = NOW()\n         WHERE id IN (\n             SELECT id\n             FROM chaindexing_outbox\n             WHERE attempt_count < ");
    push_decimal(&mut sql, if config.max_attempts < 1 { 1 } else { config.max_attempts as u64 });
    push_str(&mut sql, "\n               AND (\n                 (\n                    status = 'pending'\n                    AND (next_attempt_at IS NULL OR next_attempt_at <= NOW())\n                 )\n                 OR (\n                    status = 'dispatching'\n                    AND lease_expires_at <= NOW()\n                 )\n                )\n             ORDER BY id ASC\n             LIMIT ");
    push_decimal(&mut sql, config.batch_size);
    push_str(&mut sql, "\n             FOR UPDATE SKIP LOCKED\n         )\n         RETURNING id, idempotency_key, chain_id, contract_address, event_id, handler_id, payload, attempt_count, lease_token");
    sql
}

/// The statement dead-lettering jobs whose lease expired after their last attempt.
pub open spec fn dead_letter_expired_jobs_sql(config: OutboxDispatchConfig) -> Seq<char> {
    "UPDATE chaindexing_outbox\n         SET status = 'dead',\n             last_error = COALESCE(last_error, 'dispatch lease expired after max attempts'),\n             next_attempt_at = NULL,\n             lease_expires_at = NULL,\n             lease_token = NULL,\n             updated_at = NOW()\n         WHERE status = 'dispatching'\n           AND lease_expires_at <= NOW()\n           AND attempt_count >= "@
        + decimal(effective_max_attempts(config) as nat)
}

/// The statement dead-lettering exhausted, expired leases.
pub fn dead_letter_expired_jobs_query(config: OutboxDispatchConfig) -> (sql: String)
    ensures
        sql@ == dead_letter_expired_jobs_sql(config),
{
    let mut sql = String::new();
    push_str(&mut sql, "UPDATE chaindexing_outbox\n         SET status = 'dead',\n             last_error = COALESCE(last_error, 'dispatch lease expired after max attempts'),\n             next_attempt_at = NULL,\n             lease_expires_at = NULL,\n             lease_token = NULL,\n             updated_at = NOW()\n         WHERE status = 'dispatching'\n           AND lease_expires_at <= NOW()\n           AND attempt_count >= ");
    push_decimal(&mut sql, if config.max_attempts < 1 { 1 } else { config.max_attempts as u64 });
    sql
}

/// The statement recording a delivered job, only while its lease is current.
pub open spec fn mark_delivered_sql(job: LeasedOutboxJob) -> Seq<char> {
    "UPDATE chaindexing_outbox\n         SET status = 'delivered',\n             last_error = NULL,\n             next_attempt_at = NULL,\n             lease_expires_at = NULL,\n             lease_token = NULL,\n             updated_at = NOW()\n         WHERE id = "@
        + decimal_signed(job.id as int)
        + "\n           AND lease_token = '"@
        + uuid_hyphenated_text(job.lease_token)
        + "'"@
}

/// The statement recording a delivered job.
pub fn mark_delivered_query(job: &LeasedOutboxJob) -> (sql: String)
    ensures
        sql@ == mark_delivered_sql(*job),
{
    let mut sql = String::new();
    push_str(&mut sql, "UPDATE chaindexing_outbox\n         SET status = 'delivered',\n             last_error = NULL,\n             next_attempt_at = NULL,\n             lease_expires_at = NULL,\n             lease_token = NULL,\n             updated_at = NOW()\n         WHERE id = ");
    push_decimal_signed(&mut sql, job.id);
    push_str(&mut sql, "\n           AND lease_token = '");
    push_uuid(&mut sql, job.lease_token);
    push_str(&mut sql, "'");
    sql
}

/// The exponent of the retry backoff after `attempt_count` attempts:
/// `attempt_count - 1`, floored at zero (read as unsigned) and capped at six.
pub open spec fn retry_exponent(attempt_count: i32) -> nat {
    let attempts = (attempt_count as u32) as int;
    if attempts <= 1 {
        0
    } else if attempts - 1 > 6 {
        6
    } else {
        (attempts - 1) as nat
    }
}

/// Two to a power of at most six.
pub open spec fn small_pow2(k: nat) -> nat {
    if k == 0 { 1 } else if k == 1 { 2 } else if k == 2 { 4 } else if k == 3 { 8 }
    else if k == 4 { 16 } else if k == 5 { 32 } else { 64 }
}

/// Seconds until the next attempt of a failed job: the base delay doubled once per
/// earlier attempt, at most six times.
pub open spec fn retry_delay(attempt_count: i32, config: OutboxDispatchConfig) -> int {
    config.base_retry_delay_secs * small_pow2(retry_exponent(attempt_count))
}

/// A failed job is dead once it has used its attempts, else pending again.
pub open spec fn failed_status(attempt_count: i32, config: OutboxDispatchConfig) -> Seq<char> {
    if attempt_count >= (effective_max_attempts(config) as i32) {
        "dead"@
    } else {
        "pending"@
    }
}

/// When a failed job may be tried again: never for a dead job.
pub open spec fn failed_next_attempt_text(job: LeasedOutboxJob, config: OutboxDispatchConfig) -> Seq<char> {
    if job.attempt_count >= (effective_max_attempts(config) as i32) {
        "NULL"@
    } else {
        "NOW() + INTERVAL '"@
        + decimal(retry_delay(job.attempt_count, config) as nat)
        + " seconds'"@
    }
}

/// The statement recording a failed dispatch, only while the job's lease is current.
pub open spec fn mark_failed_sql(job: LeasedOutboxJob, error: Seq<char>, config: OutboxDispatchConfig) -> Seq<char> {
    "UPDATE chaindexing_outbox\n         SET status = '"@
        + failed_status(job.attempt_count, config)
        + "',\n             last_error = '"@
        + escape_quotes(error)
        + "',\n             next_attempt_at = "@
        + failed_next_attempt_text(job, config)
        + ",\n             lease_expires_at = NULL,\n             lease_token = NULL,\n             updated_at = NOW()\n         WHERE id = "@
        + decimal_signed(job.id as int)
        + "\n           AND lease_token = '"@
        + uuid_hyphenated_text(job.lease_token)
        + "'"@
}

/// Recording an outcome only touches the job under the lease it was dispatched with:
/// both the delivered and the failed statements end by selecting the job's id and
/// its current lease token.
pub proof fn lemma_outcomes_require_current_lease(job: LeasedOutboxJob, error: Seq<char>, config: OutboxDispatchConfig)
    ensures
        exists|head: Seq<char>|
            mark_delivered_sql(job) == head + decimal_signed(job.id as int) + "\n           AND lease_token = '"@
                + uuid_hyphenated_text(job.lease_token) + "'"@,
        exists|head: Seq<char>|
            mark_failed_sql(job, error, config) == head + decimal_signed(job.id as int)
                + "\n           AND lease_token = '"@ + uuid_hyphenated_text(job.lease_token) + "'"@,
{
    let d = "UPDATE chaindexing_outbox\n         SET status = 'delivered',\n             last_error = NULL,\n             next_attempt_at = NULL,\n             lease_expires_at = NULL,\n             lease_token = NULL,\n             updated_at = NOW()\n         WHERE id = "@;
    assert(mark_delivered_sql(job) == d + decimal_signed(job.id as int) + "\n           AND lease_token = '"@
        + uuid_hyphenated_text(job.lease_token) + "'"@);
    let f = "UPDATE chaindexing_outbox\n         SET status = '"@
        + failed_status(job.attempt_count, config)
        + "',\n             last_error = '"@
        + escape_quotes(error)
        + "',\n             next_attempt_at = "@
        + failed_next_attempt_text(job, config)
        + ",\n             lease_expires_at = NULL,\n             lease_token = NULL,\n             updated_at = NOW()\n         WHERE id = "@;
    assert(mark_failed_sql(job, error, config) == f + decimal_signed(job.id as int)
        + "\n           AND lease_token = '"@ + uuid_hyphenated_text(job.lease_token) + "'"@);
}

/// Failed jobs back off exponentially: the first retry waits the base delay, each
/// further attempt doubles the wait, and from the seventh attempt on the wait stays
/// at 64 times the base.
pub proof fn lemma_retry_delay_backs_off(attempt_count: i32, config: OutboxDispatchConfig)
    requires
        attempt_count >= 0,
    ensures
        attempt_count <= 1 ==> retry_delay(attempt_count, config) == config.base_retry_delay_secs,
        1 <= attempt_count < 7 ==> retry_delay((attempt_count + 1) as i32, config) == 2 * retry_delay(attempt_count, config),
        attempt_count >= 7 ==> retry_delay(attempt_count, config) == 64 * config.base_retry_delay_secs,
{
    assert((attempt_count as u32) as int == attempt_count as int);
    if attempt_count < i32::MAX {
        assert((((attempt_count + 1) as i32) as u32) as int == attempt_count + 1);
    }
}

/// A failed job that has attempts left is scheduled again after its retry delay:
/// the statement sets its next attempt to `NOW()` plus that many seconds, which is
/// when the lease statement takes it up again.
pub proof fn lemma_failed_job_retried_after_delay(job: LeasedOutboxJob, error: Seq<char>, config: OutboxDispatchConfig)
    requires
        job.attempt_count < (effective_max_attempts(config) as i32),
    ensures
        crate::char_seq::contains_text(
            mark_failed_sql(job, error, config),
            "NOW() + INTERVAL '"@ + decimal(retry_delay(job.attempt_count, config) as nat) + " seconds'"@,
        ),
{
    let b = "NOW() + INTERVAL '"@ + decimal(retry_delay(job.attempt_count, config) as nat) + " seconds'"@;
    let a = "UPDATE chaindexing_outbox\n         SET status = '"@
        + failed_status(job.attempt_count, config)
        + "',\n             last_error = '"@
        + escape_quotes(error)
        + "',\n             next_attempt_at = "@;
    let c = ",\n             lease_expires_at = NULL,\n             lease_token = NULL,\n             updated_at = NOW()\n         WHERE id = "@
        + decimal_signed(job.id as int)
        + "\n           AND lease_token = '"@
        + uuid_hyphenated_text(job.lease_token)
        + "'"@;
    assert(failed_next_attempt_text(job, config) == b);
    assert(mark_failed_sql(job, error, config) =~= a + b + c);
    assert(b.subrange(0, b.len() as int) =~= b);
    crate::char_seq::lemma_occurs_within(a, b, c, b, 0);
}

/// The factor `2^retry_exponent(attempt_count)` the base delay is multiplied by.
fn retry_factor(attempt_count: i32) -> (factor: u64)
    ensures
        factor == small_pow2(retry_exponent(attempt_count)),
{
    let attempts = attempt_count as u32;
    let exponent: u32 = if attempts <= 1 {
        0
    } else if attempts - 1 > 6 {
        6
    } else {
        attempts - 1
    };
    if exponent == 0 { 1 } else if exponent == 1 { 2 } else if exponent == 2 { 4 }
        else if exponent == 3 { 8 } else if exponent == 4 { 16 } else if exponent == 5 { 32 }
        else { 64 }
}

/// Seconds until the next attempt of a job that failed after `attempt_count`
/// attempts (see [`retry_delay`]), or `None` where that delay does not fit in a `u64`.
pub fn retry_delay_secs(attempt_count: i32, config: OutboxDispatchConfig) -> (delay: Option<u64>)
    ensures
        delay is Some <==> retry_delay(attempt_count, config) <= u64::MAX,
        delay matches Some(d) ==> d == retry_delay(attempt_count, config),
{
    config.base_retry_delay_secs.checked_mul(retry_factor(attempt_count))
}

/// The statement recording a dispatch outcome (see [`dispatch_outcome_query`]), or
/// `None` where the failed job's retry delay would not fit in a `u64`.
pub fn checked_dispatch_outcome_query(
    job: &LeasedOutboxJob,
    outcome: &Result<(), String>,
    config: OutboxDispatchConfig,
) -> (sql: Option<String>)
    ensures
        sql is Some <==> retry_delay(job.attempt_count, config) <= u64::MAX,
        sql matches Some(text) ==> text@ == match outcome {
            Ok(()) => mark_delivered_sql(*job),
            Err(error) => mark_failed_sql(*job, error@, config),
        },
{
    match retry_delay_secs(job.attempt_count, config) {
        Some(_) => Some(dispatch_outcome_query(job, outcome, config)),
        None => None,
    }
}

fn bounded_retry_delay_secs(attempt_count: i32, config: OutboxDispatchConfig) -> (delay: u64)
    requires
        retry_delay(attempt_count, config) <= u64::MAX,
    ensures
        delay == retry_delay(attempt_count, config),
{
    config.base_retry_delay_secs * retry_factor(attempt_count)
}

/// The statement recording a failed dispatch with `error`: dead after the last
/// attempt, else pending again after the backoff delay; the lease is released.
pub fn mark_failed_query(job: &LeasedOutboxJob, error: &str, config: OutboxDispatchConfig) -> (sql: String)
    requires
        retry_delay(job.attempt_count, config) <= u64::MAX,
    ensures
        sql@ == mark_failed_sql(*job, error@, config),
{
    let max_attempts: i32 = if config.max_attempts < 1 { 1 } else { config.max_attempts as i32 };
    let status = if job.attempt_count >= max_attempts { "dead" } else { "pending" };
    let retry_delay_secs = bounded_retry_delay_secs(job.attempt_count, config);
    let mut next_attempt_at = String::new();
    if job.attempt_count >= max_attempts {
        push_str(&mut next_attempt_at, "NULL");
    } else {
        push_str(&mut next_attempt_at, "NOW() + INTERVAL '");
        push_decimal(&mut next_attempt_at, retry_delay_secs);
        push_str(&mut next_attempt_at, " seconds'");
    }
    let mut sql = String::new();
    push_str(&mut sql, "UPDATE chaindexing_outbox\n         SET status = '");
    push_str(&mut sql, status);
    push_str(&mut sql, "',\n             last_error = '");
    push_escaped(&mut sql, error);
    push_str(&mut sql, "',\n             next_attempt_at = ");
    push_str(&mut sql, next_attempt_at.as_str());
    push_str(&mut sql, ",\n             lease_expires_at = NULL,\n             lease_token = NULL,\n             updated_at = NOW()\n         WHERE id = ");
    push_decimal_signed(&mut sql, job.id);
    push_str(&mut sql, "\n           AND lease_token = '");
    push_uuid(&mut sql, job.lease_token);
    push_str(&mut sql, "'");
    sql
}

/// What to record after dispatching a leased job: delivered on success, else the
/// failure with the dispatcher's error.
pub fn dispatch_outcome_query(
    job: &LeasedOutboxJob,
    outcome: &Result<(), String>,
    config: OutboxDispatchConfig,
) -> (sql: String)
    requires
        retry_delay(job.attempt_count, config) <= u64::MAX,
    ensures
        sql@ == match outcome {
            Ok(()) => mark_delivered_sql(*job),
            Err(error) => mark_failed_sql(*job, error@, config),
        },
{
    match outcome {
        Ok(()) => mark_delivered_query(job),
        Err(error) => mark_failed_query(job, error.as_str(), config),
    }
}

} // verus!
