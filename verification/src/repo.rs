//! Chaindexing's own tables: their migrations, the repository errors, and the
//! contract-address stream's chunking.
use vstd::prelude::*;
use crate::text::{decimal_signed, push_decimal_signed, push_str};

verus! {

/// Errors from the configured SQL database.
#[derive(Clone, Debug, PartialEq, Eq)]
pub enum RepoError {
    NotConnected,
    Unknown(String),
}

/// The statements of the `create_root_states` migration.
pub const CREATE_ROOT_STATES_MIGRATION: [&'static str; 1] = [
    "CREATE TABLE IF NOT EXISTS chaindexing_root_states (\n                id BIGSERIAL PRIMARY KEY,\n                reset_count BIGINT NOT NULL,\n                reset_including_side_effects_count BIGINT NOT NULL\n            )",
];

/// The statements of the `create_nodes` migration.
pub const CREATE_NODES_MIGRATION: [&'static str; 1] = [
    "CREATE TABLE IF NOT EXISTS chaindexing_nodes (\n                id SERIAL PRIMARY KEY,\n                last_active_at BIGINT DEFAULT EXTRACT(EPOCH FROM CURRENT_TIMESTAMP)::BIGINT,\n                inserted_at BIGINT DEFAULT EXTRACT(EPOCH FROM CURRENT_TIMESTAMP)::BIGINT\n        )",
];

/// The statements of the `create_contract_addresses` migration.
pub const CREATE_CONTRACT_ADDRESSES_MIGRATION: [&'static str; 2] = [
    "CREATE TABLE IF NOT EXISTS chaindexing_contract_addresses (\n                id BIGSERIAL PRIMARY KEY,\n                address VARCHAR NOT NULL,\n                contract_name VARCHAR NOT NULL,\n                chain_id BIGINT NOT NULL,\n                start_block_number BIGINT NOT NULL,\n                next_block_number_to_ingest_from BIGINT NOT NULL,\n                next_block_number_to_handle_from BIGINT NOT NULL,\n                next_block_number_for_side_effects BIGINT DEFAULT 0\n        )",
    "CREATE UNIQUE INDEX IF NOT EXISTS chaindexing_contract_addresses_chain_address_index\n        ON chaindexing_contract_addresses(chain_id, address)",
];

/// The statements of the `restart_ingest_and_handlers_next_block_numbers` migration.
pub const RESTART_INGEST_AND_HANDLERS_NEXT_BLOCK_NUMBERS_MIGRATION: [&'static str; 1] = [
    "UPDATE chaindexing_contract_addresses \n           SET next_block_number_to_handle_from = start_block_number, next_block_number_to_ingest_from = start_block_number",
];

/// The statements of the `zero_next_block_number_for_side_effects` migration.
pub const ZERO_NEXT_BLOCK_NUMBER_FOR_SIDE_EFFECTS_MIGRATION: [&'static str; 1] = [
    "UPDATE chaindexing_contract_addresses SET next_block_number_for_side_effects = 0",
];

/// The statements of the `create_events` migration.
pub const CREATE_EVENTS_MIGRATION: [&'static str; 4] = [
    "CREATE TABLE IF NOT EXISTS chaindexing_events (\n                id uuid PRIMARY KEY,\n                chain_id BIGINT NOT NULL,\n                contract_address VARCHAR NOT NULL,\n                contract_name VARCHAR NOT NULL,\n                abi TEXT NOT NULL,\n                parameters JSON NOT NULL,\n                topics JSON NOT NULL,\n                block_hash VARCHAR NOT NULL,\n                block_number BIGINT NOT NULL,\n                block_timestamp BIGINT NOT NULL,\n                transaction_hash VARCHAR NOT NULL,\n                transaction_index INTEGER NOT NULL,\n                log_index INTEGER NOT NULL,\n                removed BOOLEAN NOT NULL,\n                inserted_at TIMESTAMPTZ NOT NULL DEFAULT NOW() \n            )",
    "CREATE INDEX IF NOT EXISTS chaindexing_events_chain_contract_block_log_index\n            ON chaindexing_events(chain_id,contract_address,block_number,log_index)",
    "CREATE INDEX IF NOT EXISTS chaindexing_events_abi\n            ON chaindexing_events(abi)",
    "CREATE UNIQUE INDEX IF NOT EXISTS chaindexing_events_identity\n            ON chaindexing_events(chain_id,contract_address,block_hash,transaction_hash,log_index)",
];

/// The statements of the `drop_events` migration.
pub const DROP_EVENTS_MIGRATION: [&'static str; 1] = [
    "DROP TABLE IF EXISTS chaindexing_events",
];

/// The statements of the `create_reorged_blocks` migration.
pub const CREATE_REORGED_BLOCKS_MIGRATION: [&'static str; 1] = [
    "CREATE TABLE IF NOT EXISTS chaindexing_reorged_blocks (\n                id SERIAL PRIMARY KEY,\n                chain_id BIGINT NOT NULL,\n                block_number BIGINT NOT NULL,\n                handled_at BIGINT,\n                inserted_at TIMESTAMPTZ NOT NULL DEFAULT NOW() \n            )",
];

/// The statements of the `drop_reorged_blocks` migration.
pub const DROP_REORGED_BLOCKS_MIGRATION: [&'static str; 1] = [
    "DROP TABLE IF EXISTS chaindexing_reorged_blocks",
];

/// Appends statements to a list.
pub fn append_statements(out: &mut Vec<&'static str>, more: &[&'static str])
    ensures
        final(out)@ == old(out)@ + more@,
{
    let ghost start = out@;
    let mut i: usize = 0;
    while i < more.len()
        invariant
            i <= more@.len(),
            out@ == start + more@.take(i as int),
        decreases more@.len() - i,
    {
        out.push(more[i]);
        assert(out@ =~= start + more@.take(i + 1));
        i = i + 1;
    }
    assert(more@.take(more@.len() as int) =~= more@);
}

/// The migrations of a repository's own tables, each named by a spec function that
/// its implementation states its statements by.
pub trait RepoMigrations {
    spec fn create_root_states_statements() -> Seq<&'static str>;

    spec fn create_nodes_statements() -> Seq<&'static str>;

    spec fn create_contract_addresses_statements() -> Seq<&'static str>;

    spec fn restart_ingest_and_handlers_next_block_numbers_statements() -> Seq<&'static str>;

    spec fn zero_next_block_number_for_side_effects_statements() -> Seq<&'static str>;

    spec fn create_events_statements() -> Seq<&'static str>;

    spec fn drop_events_statements() -> Seq<&'static str>;

    spec fn create_reorged_blocks_statements() -> Seq<&'static str>;

    spec fn drop_reorged_blocks_statements() -> Seq<&'static str>;

    fn create_root_states_migration() -> (migration: &'static [&'static str])
        ensures
            migration@ == Self::create_root_states_statements();

    fn create_nodes_migration() -> (migration: &'static [&'static str])
        ensures
            migration@ == Self::create_nodes_statements();

    fn create_contract_addresses_migration() -> (migration: &'static [&'static str])
        ensures
            migration@ == Self::create_contract_addresses_statements();

    fn restart_ingest_and_handlers_next_block_numbers_migration() -> (migration: &'static [&'static str])
        ensures
            migration@ == Self::restart_ingest_and_handlers_next_block_numbers_statements();

    fn zero_next_block_number_for_side_effects_migration() -> (migration: &'static [&'static str])
        ensures
            migration@ == Self::zero_next_block_number_for_side_effects_statements();

    fn create_events_migration() -> (migration: &'static [&'static str])
        ensures
            migration@ == Self::create_events_statements();

    fn drop_events_migration() -> (migration: &'static [&'static str])
        ensures
            migration@ == Self::drop_events_statements();

    fn create_reorged_blocks_migration() -> (migration: &'static [&'static str])
        ensures
            migration@ == Self::create_reorged_blocks_statements();

    fn drop_reorged_blocks_migration() -> (migration: &'static [&'static str])
        ensures
            migration@ == Self::drop_reorged_blocks_statements();

    /// The events and reorged-blocks migrations, in that order.
    fn get_internal_migrations() -> (migrations: Vec<&'static str>)
        ensures
            migrations@ == Self::create_events_statements() + Self::create_reorged_blocks_statements(),
    {
        let mut migrations: Vec<&'static str> = Vec::new();
        append_statements(&mut migrations, Self::create_events_migration());
        append_statements(&mut migrations, Self::create_reorged_blocks_migration());
        migrations
    }

    /// The migrations that drop events and reorged blocks and restart the cursors.
    fn get_reset_internal_migrations() -> (migrations: Vec<&'static str>)
        ensures
            migrations@ == Self::drop_events_statements() + Self::drop_reorged_blocks_statements()
                + Self::restart_ingest_and_handlers_next_block_numbers_statements(),
    {
        let mut migrations: Vec<&'static str> = Vec::new();
        append_statements(&mut migrations, Self::drop_events_migration());
        append_statements(&mut migrations, Self::drop_reorged_blocks_migration());
        append_statements(&mut migrations, Self::restart_ingest_and_handlers_next_block_numbers_migration());
        migrations
    }
}

/// The Postgres repository, by its database URL.
#[derive(Clone, Debug)]
pub struct PostgresRepo {
    pub url: String,
}

impl PostgresRepo {
    /// A repository for the database at `url`.
    pub fn new(url: &str) -> (repo: PostgresRepo)
        ensures
            repo.url@ == url@,
    {
        PostgresRepo { url: crate::text::to_owned_string(url) }
    }
}

impl RepoMigrations for PostgresRepo {
    open spec fn create_root_states_statements() -> Seq<&'static str> {
        CREATE_ROOT_STATES_MIGRATION@
    }

    open spec fn create_nodes_statements() -> Seq<&'static str> {
        CREATE_NODES_MIGRATION@
    }

    open spec fn create_contract_addresses_statements() -> Seq<&'static str> {
        CREATE_CONTRACT_ADDRESSES_MIGRATION@
    }

    open spec fn restart_ingest_and_handlers_next_block_numbers_statements() -> Seq<&'static str> {
        RESTART_INGEST_AND_HANDLERS_NEXT_BLOCK_NUMBERS_MIGRATION@
    }

    open spec fn zero_next_block_number_for_side_effects_statements() -> Seq<&'static str> {
        ZERO_NEXT_BLOCK_NUMBER_FOR_SIDE_EFFECTS_MIGRATION@
    }

    open spec fn create_events_statements() -> Seq<&'static str> {
        CREATE_EVENTS_MIGRATION@
    }

    open spec fn drop_events_statements() -> Seq<&'static str> {
        DROP_EVENTS_MIGRATION@
    }

    open spec fn create_reorged_blocks_statements() -> Seq<&'static str> {
        CREATE_REORGED_BLOCKS_MIGRATION@
    }

    open spec fn drop_reorged_blocks_statements() -> Seq<&'static str> {
        DROP_REORGED_BLOCKS_MIGRATION@
    }

    fn create_root_states_migration() -> (migration: &'static [&'static str])
        ensures
            migration@ == CREATE_ROOT_STATES_MIGRATION@,
    {
        SQLikeMigrations::create_root_states()
    }

    fn create_nodes_migration() -> (migration: &'static [&'static str])
        ensures
            migration@ == CREATE_NODES_MIGRATION@,
    {
        SQLikeMigrations::create_nodes()
    }

    fn create_contract_addresses_migration() -> (migration: &'static [&'static str])
        ensures
            migration@ == CREATE_CONTRACT_ADDRESSES_MIGRATION@,
    {
        SQLikeMigrations::create_contract_addresses()
    }

    fn restart_ingest_and_handlers_next_block_numbers_migration() -> (migration: &'static [&'static str])
        ensures
            migration@ == RESTART_INGEST_AND_HANDLERS_NEXT_BLOCK_NUMBERS_MIGRATION@,
    {
        SQLikeMigrations::restart_ingest_and_handlers_next_block_numbers()
    }

    fn zero_next_block_number_for_side_effects_migration() -> (migration: &'static [&'static str])
        ensures
            migration@ == ZERO_NEXT_BLOCK_NUMBER_FOR_SIDE_EFFECTS_MIGRATION@,
    {
        SQLikeMigrations::zero_next_block_number_for_side_effects()
    }

    fn create_events_migration() -> (migration: &'static [&'static str])
        ensures
            migration@ == CREATE_EVENTS_MIGRATION@,
    {
        SQLikeMigrations::create_events()
    }

    fn drop_events_migration() -> (migration: &'static [&'static str])
        ensures
            migration@ == DROP_EVENTS_MIGRATION@,
    {
        SQLikeMigrations::drop_events()
    }

    fn create_reorged_blocks_migration() -> (migration: &'static [&'static str])
        ensures
            migration@ == CREATE_REORGED_BLOCKS_MIGRATION@,
    {
        SQLikeMigrations::create_reorged_blocks()
    }

    fn drop_reorged_blocks_migration() -> (migration: &'static [&'static str])
        ensures
            migration@ == DROP_REORGED_BLOCKS_MIGRATION@,
    {
        SQLikeMigrations::drop_reorged_blocks()
    }
}

/// `a + b` for `b >= 0`, saturating at `i64::MAX`.
pub open spec fn saturating_add_nonneg(a: i64, b: int) -> int {
    if a + b > i64::MAX { i64::MAX as int } else { a + b }
}

/// The next chunk of ids between `from` and `to` (inclusive) of at most
/// `chunk_size` ids (a size below one counts as one): its first and last id and where
/// the chunk after it starts; `None` once `from` is past `to`.
pub open spec fn chunk_bounds(from: i64, to: i64, chunk_size: i64) -> Option<(i64, i64, i64)> {
    if from > to {
        None
    } else {
        let size = if chunk_size < 1 { 1 } else { chunk_size as int };
        let end = saturating_add_nonneg(from, size - 1);
        let chunk_to = if end < to { end } else { to as int };
        Some((from, chunk_to as i64, saturating_add_nonneg(chunk_to as i64, 1) as i64))
    }
}

fn add_saturating(a: i64, b: i64) -> (sum: i64)
    requires
        b >= 0,
    ensures
        sum == saturating_add_nonneg(a, b as int),
{
    if a > i64::MAX - b {
        i64::MAX
    } else {
        a + b
    }
}

/// The next chunk of ids to stream (see [`chunk_bounds`]).
pub fn next_chunk_bounds(from: i64, to: i64, chunk_size: i64) -> (bounds: Option<(i64, i64, i64)>)
    ensures
        bounds == chunk_bounds(from, to, chunk_size),
{
    if from > to {
        return None;
    }
    let size: i64 = if chunk_size < 1 { 1 } else { chunk_size };
    let end = add_saturating(from, size - 1);
    let chunk_to = if end < to { end } else { to };
    let next_from = add_saturating(chunk_to, 1);
    Some((from, chunk_to, next_from))
}

/// A chunk starts where asked, stays inside the range, holds at most the chunk size
/// (at least one) of ids, and the next chunk starts right after it unless the ids
/// ran out of room.
pub proof fn lemma_chunks_partition(from: i64, to: i64, chunk_size: i64)
    requires
        from <= to,
    ensures
        chunk_bounds(from, to, chunk_size) matches Some((f, t, n)) && f == from && from <= t <= to && t
            - from + 1 <= (if chunk_size < 1 { 1 } else { chunk_size as int }) && (t < i64::MAX ==> n == t + 1)
            && (t == i64::MAX ==> n == i64::MAX),
{
}

/// Streams the contract addresses of a chain in chunks of ids.
#[derive(Clone, Copy, Debug, PartialEq, Eq, Structural)]
pub struct ContractAddressesStream {
    pub chain_id: i64,
    pub chunk_size: i64,
}

impl ContractAddressesStream {
    /// A stream of a chain's contract addresses in chunks of 500.
    pub fn new(chain_id: i64) -> (stream: ContractAddressesStream)
        ensures
            stream == (ContractAddressesStream { chain_id, chunk_size: 500 }),
    {
        ContractAddressesStream { chain_id, chunk_size: 500 }
    }

    /// The stream with another chunk size.
    pub fn with_chunk_size(self, chunk_size: i64) -> (stream: ContractAddressesStream)
        ensures
            stream == (ContractAddressesStream { chunk_size, ..self }),
    {
        ContractAddressesStream { chunk_size, ..self }
    }

    /// The next chunk to load from `from` on, up to `to`: its first and last id, and
    /// where the following chunk starts, or `None` there when this chunk reaches `to`
    /// and the stream ends after it.
    pub fn next_chunk(&self, from: i64, to: i64) -> (bounds: Option<(i64, i64, Option<i64>)>)
        ensures
            bounds == match chunk_bounds(from, to, self.chunk_size) {
                Some((f, t, n)) => Some((f, t, if t < to { Some(n) } else { None })),
                None => None,
            },
    {
        match next_chunk_bounds(from, to, self.chunk_size) {
            Some((chunk_from, chunk_to, next_from)) => Some((
                chunk_from,
                chunk_to,
                if chunk_to < to { Some(next_from) } else { None },
            )),
            None => None,
        }
    }
}

/// Chaindexing's own migrations, written in SQL that Postgres accepts.
pub struct SQLikeMigrations;

impl SQLikeMigrations {
    /// The `create_root_states` migration.
    pub fn create_root_states() -> (migration: &'static [&'static str])
        ensures
            migration@ == CREATE_ROOT_STATES_MIGRATION@,
    {
        &CREATE_ROOT_STATES_MIGRATION
    }

    /// The `create_nodes` migration.
    pub fn create_nodes() -> (migration: &'static [&'static str])
        ensures
            migration@ == CREATE_NODES_MIGRATION@,
    {
        &CREATE_NODES_MIGRATION
    }

    /// The `create_contract_addresses` migration.
    pub fn create_contract_addresses() -> (migration: &'static [&'static str])
        ensures
            migration@ == CREATE_CONTRACT_ADDRESSES_MIGRATION@,
    {
        &CREATE_CONTRACT_ADDRESSES_MIGRATION
    }

    /// The `restart_ingest_and_handlers_next_block_numbers` migration.
    pub fn restart_ingest_and_handlers_next_block_numbers() -> (migration: &'static [&'static str])
        ensures
            migration@ == RESTART_INGEST_AND_HANDLERS_NEXT_BLOCK_NUMBERS_MIGRATION@,
    {
        &RESTART_INGEST_AND_HANDLERS_NEXT_BLOCK_NUMBERS_MIGRATION
    }

    /// The `zero_next_block_number_for_side_effects` migration.
    pub fn zero_next_block_number_for_side_effects() -> (migration: &'static [&'static str])
        ensures
            migration@ == ZERO_NEXT_BLOCK_NUMBER_FOR_SIDE_EFFECTS_MIGRATION@,
    {
        &ZERO_NEXT_BLOCK_NUMBER_FOR_SIDE_EFFECTS_MIGRATION
    }

    /// The `create_events` migration.
    pub fn create_events() -> (migration: &'static [&'static str])
        ensures
            migration@ == CREATE_EVENTS_MIGRATION@,
    {
        &CREATE_EVENTS_MIGRATION
    }

    /// The `drop_events` migration.
    pub fn drop_events() -> (migration: &'static [&'static str])
        ensures
            migration@ == DROP_EVENTS_MIGRATION@,
    {
        &DROP_EVENTS_MIGRATION
    }

    /// The `create_reorged_blocks` migration.
    pub fn create_reorged_blocks() -> (migration: &'static [&'static str])
        ensures
            migration@ == CREATE_REORGED_BLOCKS_MIGRATION@,
    {
        &CREATE_REORGED_BLOCKS_MIGRATION
    }

    /// The `drop_reorged_blocks` migration.
    pub fn drop_reorged_blocks() -> (migration: &'static [&'static str])
        ensures
            migration@ == DROP_REORGED_BLOCKS_MIGRATION@,
    {
        &DROP_REORGED_BLOCKS_MIGRATION
    }
}

} // verus!

verus! {

/// The query loading the smallest contract-address id of a chain.
pub open spec fn min_id_sql(chain_id: i64) -> Seq<char> {
    "\n                                SELECT MIN(id) FROM chaindexing_contract_addresses \n                                WHERE chain_id = "@
        + decimal_signed(chain_id as int)
}

/// The query loading the largest contract-address id of a chain.
pub open spec fn max_id_sql(chain_id: i64) -> Seq<char> {
    "\n                                SELECT MAX(id) FROM chaindexing_contract_addresses \n                                WHERE chain_id = "@
        + decimal_signed(chain_id as int)
}

impl ContractAddressesStream {
    /// The query loading the smallest contract-address id of the stream's chain.
    pub fn min_id_query(&self) -> (query: String)
        ensures
            query@ == min_id_sql(self.chain_id),
    {
        let chain_id = self.chain_id;
        let mut query = String::new();
            push_str(&mut query, "\n                                SELECT MIN(id) FROM chaindexing_contract_addresses \n                                WHERE chain_id = ");
        push_decimal_signed(&mut query, chain_id);
        query
    }

    /// The query loading the largest contract-address id of the stream's chain.
    pub fn max_id_query(&self) -> (query: String)
        ensures
            query@ == max_id_sql(self.chain_id),
    {
        let chain_id = self.chain_id;
        let mut query = String::new();
            push_str(&mut query, "\n                                SELECT MAX(id) FROM chaindexing_contract_addresses \n                                WHERE chain_id = ");
        push_decimal_signed(&mut query, chain_id);
        query
    }
}

/// The id range a stream walks: the given bounds, else the loaded smallest and
/// largest ids, else zero.
pub fn resolved_bounds(from: Option<i64>, to: Option<i64>, loaded_min: Option<i64>, loaded_max: Option<i64>) -> (bounds: (i64, i64))
    ensures
        bounds.0 == match from {
            Some(f) => f,
            None => match loaded_min {
                Some(m) => m,
                None => 0,
            },
        },
        bounds.1 == match to {
            Some(t) => t,
            None => match loaded_max {
                Some(m) => m,
                None => 0,
            },
        },
{
    let f = match from {
        Some(f) => f,
        None => match loaded_min {
            Some(m) => m,
            None => 0,
        },
    };
    let t = match to {
        Some(t) => t,
        None => match loaded_max {
            Some(m) => m,
            None => 0,
        },
    };
    (f, t)
}

} // verus!
