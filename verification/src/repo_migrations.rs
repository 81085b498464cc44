//! The migrations of the shared repository crate: Chaindexing's own tables in its
//! earlier layout (contract addresses without side-effect cursors, events with
//! their log parameters, and reset counts).
use vstd::prelude::*;
use crate::repo::append_statements;

verus! {

/// The statements of the `create_nodes` migration.
pub const CREATE_NODES_MIGRATION: [&'static str; 1] = [
    "CREATE TABLE IF NOT EXISTS chaindexing_nodes (\n              id SERIAL PRIMARY KEY,\n              last_active_at BIGINT DEFAULT EXTRACT(EPOCH FROM CURRENT_TIMESTAMP)::BIGINT,\n              inserted_at BIGINT DEFAULT EXTRACT(EPOCH FROM CURRENT_TIMESTAMP)::BIGINT\n      )",
];

/// The statements of the `create_contract_addresses` migration.
pub const CREATE_CONTRACT_ADDRESSES_MIGRATION: [&'static str; 2] = [
    "CREATE TABLE IF NOT EXISTS chaindexing_contract_addresses (\n              id SERIAL PRIMARY KEY,\n              address VARCHAR NOT NULL,\n              contract_name VARCHAR NOT NULL,\n              chain_id BIGINT NOT NULL,\n              start_block_number BIGINT NOT NULL,\n              next_block_number_to_ingest_from BIGINT NOT NULL,\n              next_block_number_to_handle_from BIGINT NOT NULL\n      )",
    "CREATE UNIQUE INDEX IF NOT EXISTS chaindexing_contract_addresses_chain_address_index\n      ON chaindexing_contract_addresses(chain_id, address)",
];

/// The statements of the `drop_contract_addresses` migration.
pub const DROP_CONTRACT_ADDRESSES_MIGRATION: [&'static str; 1] = [
    "DROP TABLE IF EXISTS chaindexing_contract_addresses",
];

/// The statements of the `create_events` migration.
pub const CREATE_EVENTS_MIGRATION: [&'static str; 4] = [
    "CREATE TABLE IF NOT EXISTS chaindexing_events (\n              id uuid PRIMARY KEY,\n              chain_id BIGINT NOT NULL,\n              contract_address VARCHAR NOT NULL,\n              contract_name VARCHAR NOT NULL,\n              abi TEXT NOT NULL,\n              log_params JSON NOT NULL,\n              parameters JSON NOT NULL,\n              topics JSON NOT NULL,\n              block_hash VARCHAR NOT NULL,\n              block_number BIGINT NOT NULL,\n              block_timestamp BIGINT NOT NULL,\n              transaction_hash VARCHAR NOT NULL,\n              transaction_index INTEGER NOT NULL,\n              log_index INTEGER NOT NULL,\n              removed BOOLEAN NOT NULL,\n              inserted_at TIMESTAMPTZ NOT NULL DEFAULT NOW() \n          )",
    "CREATE INDEX IF NOT EXISTS chaindexing_events_chain_contract_block_log_index\n          ON chaindexing_events(chain_id,contract_address,block_number,log_index)",
    "CREATE INDEX IF NOT EXISTS chaindexing_events_abi\n          ON chaindexing_events(abi)",
    "CREATE UNIQUE INDEX IF NOT EXISTS chaindexing_events_identity\n            ON chaindexing_events(chain_id,contract_address,block_hash,transaction_hash,log_index)",
];

/// The statements of the `drop_events` migration.
pub const DROP_EVENTS_MIGRATION: [&'static str; 1] = [
    "DROP TABLE IF EXISTS chaindexing_events",
];

/// The statements of the `create_reorged_blocks` migration.
pub const CREATE_REORGED_BLOCKS_MIGRATION: [&'static str; 1] = [
    "CREATE TABLE IF NOT EXISTS chaindexing_reorged_blocks (\n              id SERIAL PRIMARY KEY,\n              chain_id BIGINT NOT NULL,\n              block_number BIGINT NOT NULL,\n              handled_at TIMESTAMPTZ,\n              inserted_at TIMESTAMPTZ NOT NULL DEFAULT NOW() \n          )",
];

/// The statements of the `drop_reorged_blocks` migration.
pub const DROP_REORGED_BLOCKS_MIGRATION: [&'static str; 1] = [
    "DROP TABLE IF EXISTS chaindexing_reorged_blocks",
];

/// The statements of the `create_reset_counts` migration.
pub const CREATE_RESET_COUNTS_MIGRATION: [&'static str; 1] = [
    "CREATE TABLE IF NOT EXISTS chaindexing_reset_counts (\n              id BIGSERIAL PRIMARY KEY,\n              inserted_at TIMESTAMPTZ NOT NULL DEFAULT NOW() \n          )",
];

/// The migrations of a repository's own tables in the shared repository's layout,
/// each named by a spec function that its implementation states its statements by.
pub trait RepoMigrations {
    spec fn create_nodes_statements() -> Seq<&'static str>;

    spec fn create_contract_addresses_statements() -> Seq<&'static str>;

    spec fn drop_contract_addresses_statements() -> Seq<&'static str>;

    spec fn create_events_statements() -> Seq<&'static str>;

    spec fn drop_events_statements() -> Seq<&'static str>;

    spec fn create_reset_counts_statements() -> Seq<&'static str>;

    spec fn create_reorged_blocks_statements() -> Seq<&'static str>;

    spec fn drop_reorged_blocks_statements() -> Seq<&'static str>;

    fn create_nodes_migration() -> (migration: &'static [&'static str])
        ensures
            migration@ == Self::create_nodes_statements();

    fn create_contract_addresses_migration() -> (migration: &'static [&'static str])
        ensures
            migration@ == Self::create_contract_addresses_statements();

    fn drop_contract_addresses_migration() -> (migration: &'static [&'static str])
        ensures
            migration@ == Self::drop_contract_addresses_statements();

    fn create_events_migration() -> (migration: &'static [&'static str])
        ensures
            migration@ == Self::create_events_statements();

    fn drop_events_migration() -> (migration: &'static [&'static str])
        ensures
            migration@ == Self::drop_events_statements();

    fn create_reset_counts_migration() -> (migration: &'static [&'static str])
        ensures
            migration@ == Self::create_reset_counts_statements();

    fn create_reorged_blocks_migration() -> (migration: &'static [&'static str])
        ensures
            migration@ == Self::create_reorged_blocks_statements();

    fn drop_reorged_blocks_migration() -> (migration: &'static [&'static str])
        ensures
            migration@ == Self::drop_reorged_blocks_statements();

    /// The contract-address, events and reorged-blocks migrations, in that order.
    fn get_internal_migrations() -> (migrations: Vec<&'static str>)
        ensures
            migrations@ == Self::create_contract_addresses_statements() + Self::create_events_statements()
                + Self::create_reorged_blocks_statements(),
    {
        let mut migrations: Vec<&'static str> = Vec::new();
        append_statements(&mut migrations, Self::create_contract_addresses_migration());
        append_statements(&mut migrations, Self::create_events_migration());
        append_statements(&mut migrations, Self::create_reorged_blocks_migration());
        migrations
    }

    /// The migrations dropping those tables, in the same order.
    fn get_reset_internal_migrations() -> (migrations: Vec<&'static str>)
        ensures
            migrations@ == Self::drop_contract_addresses_statements() + Self::drop_events_statements()
                + Self::drop_reorged_blocks_statements(),
    {
        let mut migrations: Vec<&'static str> = Vec::new();
        append_statements(&mut migrations, Self::drop_contract_addresses_migration());
        append_statements(&mut migrations, Self::drop_events_migration());
        append_statements(&mut migrations, Self::drop_reorged_blocks_migration());
        migrations
    }
}

/// The shared repository's migrations, written in SQL that Postgres accepts.
pub struct SQLikeMigrations;

impl SQLikeMigrations {
    /// The `create_nodes` migration.
    pub fn create_nodes() -> (migration: &'static [&'static str])
        ensures
            migration@ == CREATE_NODES_MIGRATION@,
    {
        &CREATE_NODES_MIGRATION
    }

    /// The `create_contract_addresses` migration.
    pub fn create_contract_addresses() -> (migration: &'static [&'static str])
        ensures
            migration@ == CREATE_CONTRACT_ADDRESSES_MIGRATION@,
    {
        &CREATE_CONTRACT_ADDRESSES_MIGRATION
    }

    /// The `drop_contract_addresses` migration.
    pub fn drop_contract_addresses() -> (migration: &'static [&'static str])
        ensures
            migration@ == DROP_CONTRACT_ADDRESSES_MIGRATION@,
    {
        &DROP_CONTRACT_ADDRESSES_MIGRATION
    }

    /// The `create_events` migration.
    pub fn create_events() -> (migration: &'static [&'static str])
        ensures
            migration@ == CREATE_EVENTS_MIGRATION@,
    {
        &CREATE_EVENTS_MIGRATION
    }

    /// The `drop_events` migration.
    pub fn drop_events() -> (migration: &'static [&'static str])
        ensures
            migration@ == DROP_EVENTS_MIGRATION@,
    {
        &DROP_EVENTS_MIGRATION
    }

    /// The `create_reorged_blocks` migration.
    pub fn create_reorged_blocks() -> (migration: &'static [&'static str])
        ensures
            migration@ == CREATE_REORGED_BLOCKS_MIGRATION@,
    {
        &CREATE_REORGED_BLOCKS_MIGRATION
    }

    /// The `drop_reorged_blocks` migration.
    pub fn drop_reorged_blocks() -> (migration: &'static [&'static str])
        ensures
            migration@ == DROP_REORGED_BLOCKS_MIGRATION@,
    {
        &DROP_REORGED_BLOCKS_MIGRATION
    }

    /// The `create_reset_counts` migration.
    pub fn create_reset_counts() -> (migration: &'static [&'static str])
        ensures
            migration@ == CREATE_RESET_COUNTS_MIGRATION@,
    {
        &CREATE_RESET_COUNTS_MIGRATION
    }
}


/// The Postgres repository also serves the shared repository's layout.
impl RepoMigrations for crate::repo::PostgresRepo {
    open spec fn create_nodes_statements() -> Seq<&'static str> {
        CREATE_NODES_MIGRATION@
    }

    open spec fn create_contract_addresses_statements() -> Seq<&'static str> {
        CREATE_CONTRACT_ADDRESSES_MIGRATION@
    }

    open spec fn drop_contract_addresses_statements() -> Seq<&'static str> {
        DROP_CONTRACT_ADDRESSES_MIGRATION@
    }

    open spec fn create_events_statements() -> Seq<&'static str> {
        CREATE_EVENTS_MIGRATION@
    }

    open spec fn drop_events_statements() -> Seq<&'static str> {
        DROP_EVENTS_MIGRATION@
    }

    open spec fn create_reset_counts_statements() -> Seq<&'static str> {
        CREATE_RESET_COUNTS_MIGRATION@
    }

    open spec fn create_reorged_blocks_statements() -> Seq<&'static str> {
        CREATE_REORGED_BLOCKS_MIGRATION@
    }

    open spec fn drop_reorged_blocks_statements() -> Seq<&'static str> {
        DROP_REORGED_BLOCKS_MIGRATION@
    }

    fn create_nodes_migration() -> (migration: &'static [&'static str]) {
        SQLikeMigrations::create_nodes()
    }

    fn create_contract_addresses_migration() -> (migration: &'static [&'static str]) {
        SQLikeMigrations::create_contract_addresses()
    }

    fn drop_contract_addresses_migration() -> (migration: &'static [&'static str]) {
        SQLikeMigrations::drop_contract_addresses()
    }

    fn create_events_migration() -> (migration: &'static [&'static str]) {
        SQLikeMigrations::create_events()
    }

    fn drop_events_migration() -> (migration: &'static [&'static str]) {
        SQLikeMigrations::drop_events()
    }

    fn create_reset_counts_migration() -> (migration: &'static [&'static str]) {
        SQLikeMigrations::create_reset_counts()
    }

    fn create_reorged_blocks_migration() -> (migration: &'static [&'static str]) {
        SQLikeMigrations::create_reorged_blocks()
    }

    fn drop_reorged_blocks_migration() -> (migration: &'static [&'static str]) {
        SQLikeMigrations::drop_reorged_blocks()
    }

}

} // verus!
