//! The SQL text that the Postgres repository runs against Chaindexing's own tables.
use vstd::prelude::*;
use crate::root::State;
use crate::text::{
    decimal, decimal_signed, join, push_decimal, push_decimal_signed, push_joined, push_str,
    string_views,
};

verus! {

/// A contract address to start indexing from a block.
pub struct UnsavedContractAddress {
    pub contract_name: String,
    pub address: String,
    pub chain_id: i64,
    pub start_block_number: i64,
}

/// The row values inserted for a contract address (texts not escaped).
pub open spec fn contract_address_values(c: UnsavedContractAddress) -> Seq<char> {
    "('"@
        + c.address@
        + "', "@
        + decimal_signed(c.chain_id as int)
        + ", '"@
        + c.contract_name@
        + "', "@
        + decimal_signed(c.start_block_number as int)
        + ", "@
        + decimal_signed(c.start_block_number as int)
        + ", "@
        + decimal_signed(c.start_block_number as int)
        + ")"@
}

fn contract_address_values_of(c: &UnsavedContractAddress) -> (values: String)
    ensures
        values@ == contract_address_values(*c),
{
    let address = c.address.as_str();
    let contract_name = c.contract_name.as_str();
    let chain_id = c.chain_id;
    let start_block_number = c.start_block_number;
    let mut values = String::new();
    push_str(&mut values, "('");
    push_str(&mut values, address);
    push_str(&mut values, "', ");
    push_decimal_signed(&mut values, chain_id);
    push_str(&mut values, ", '");
    push_str(&mut values, contract_name);
    push_str(&mut values, "', ");
    push_decimal_signed(&mut values, start_block_number);
    push_str(&mut values, ", ");
    push_decimal_signed(&mut values, start_block_number);
    push_str(&mut values, ", ");
    push_decimal_signed(&mut values, start_block_number);
    push_str(&mut values, ")");
    values
}

/// The row values of each contract address.
pub open spec fn all_contract_address_values(cs: Seq<UnsavedContractAddress>) -> Seq<Seq<char>> {
    cs.map_values(|c: UnsavedContractAddress| contract_address_values(c))
}

/// The statement inserting contract addresses, leaving existing ones as they are.
pub open spec fn create_contract_addresses_sql(cs: Seq<UnsavedContractAddress>) -> Seq<char> {
    let contract_addresses_values = join(all_contract_address_values(cs), ","@);
    "\n            INSERT INTO chaindexing_contract_addresses \n            (address, chain_id, contract_name, next_block_number_to_handle_from, next_block_number_to_ingest_from, start_block_number)\n            VALUES "@
        + contract_addresses_values
        + "\n            ON CONFLICT (chain_id, address)\n            DO NOTHING\n        "@
}

/// The statement inserting contract addresses, leaving existing ones as they are.
pub fn create_contract_addresses_query(contract_addresses: &[UnsavedContractAddress]) -> (query: String)
    ensures
        query@ == create_contract_addresses_sql(contract_addresses@),
{
    let mut rows: Vec<String> = Vec::new();
    let mut i: usize = 0;
    while i < contract_addresses.len()
        invariant
            i <= contract_addresses@.len(),
            string_views(rows@) == all_contract_address_values(contract_addresses@).take(i as int),
        decreases contract_addresses@.len() - i,
    {
        let ghost before = rows@;
        rows.push(contract_address_values_of(&contract_addresses[i]));
        assert(string_views(rows@) =~= string_views(before).push(all_contract_address_values(contract_addresses@)[i as int]));
        assert(string_views(rows@) =~= all_contract_address_values(contract_addresses@).take(i + 1));
        i = i + 1;
    }
    assert(all_contract_address_values(contract_addresses@).take(contract_addresses@.len() as int)
        =~= all_contract_address_values(contract_addresses@));
    let mut query = String::new();
    push_str(&mut query, "\n            INSERT INTO chaindexing_contract_addresses \n            (address, chain_id, contract_name, next_block_number_to_handle_from, next_block_number_to_ingest_from, start_block_number)\n            VALUES ");
    push_joined(&mut query, &rows, ",");
    push_str(&mut query, "\n            ON CONFLICT (chain_id, address)\n            DO NOTHING\n        ");
    query
}

/// The statement inserting one contract address, leaving an existing one as it is.
pub open spec fn create_contract_address_sql(c: UnsavedContractAddress) -> Seq<char> {
    "INSERT INTO chaindexing_contract_addresses \n            (address, chain_id, contract_name, next_block_number_to_handle_from, next_block_number_to_ingest_from, start_block_number)\n            VALUES ('"@
        + c.address@
        + "', "@
        + decimal_signed(c.chain_id as int)
        + ", '"@
        + c.contract_name@
        + "', "@
        + decimal_signed(c.start_block_number as int)
        + ", "@
        + decimal_signed(c.start_block_number as int)
        + ", "@
        + decimal_signed(c.start_block_number as int)
        + ")\n            ON CONFLICT (chain_id, address)\n            DO NOTHING"@
}

/// The statement inserting one contract address, leaving an existing one as it is.
pub fn create_contract_address_query(contract_address: &UnsavedContractAddress) -> (query: String)
    ensures
        query@ == create_contract_address_sql(*contract_address),
{
    let c = contract_address;
    let address = c.address.as_str();
    let contract_name = c.contract_name.as_str();
    let chain_id = c.chain_id;
    let start_block_number = c.start_block_number;
    let mut query = String::new();
    push_str(&mut query, "INSERT INTO chaindexing_contract_addresses \n            (address, chain_id, contract_name, next_block_number_to_handle_from, next_block_number_to_ingest_from, start_block_number)\n            VALUES ('");
    push_str(&mut query, address);
    push_str(&mut query, "', ");
    push_decimal_signed(&mut query, chain_id);
    push_str(&mut query, ", '");
    push_str(&mut query, contract_name);
    push_str(&mut query, "', ");
    push_decimal_signed(&mut query, start_block_number);
    push_str(&mut query, ", ");
    push_decimal_signed(&mut query, start_block_number);
    push_str(&mut query, ", ");
    push_decimal_signed(&mut query, start_block_number);
    push_str(&mut query, ")\n            ON CONFLICT (chain_id, address)\n            DO NOTHING");
    query
}

/// The statement moving a contract address's handler cursor.
pub open spec fn update_next_block_number_to_handle_from_sql(address: Seq<char>, chain_id: u64, block_number: u64) -> Seq<char> {
    "UPDATE chaindexing_contract_addresses\n        SET next_block_number_to_handle_from = "@
        + decimal(block_number as nat)
        + "\n        WHERE chain_id = "@
        + decimal(chain_id as nat)
        + " AND address = '"@
        + address
        + "'"@
}

/// The statement moving a contract address's handler cursor.
pub fn update_next_block_number_to_handle_from_query(address: &str, chain_id: u64, block_number: u64) -> (query: String)
    ensures
        query@ == update_next_block_number_to_handle_from_sql(address@, chain_id, block_number),
{
    let mut query = String::new();
    push_str(&mut query, "UPDATE chaindexing_contract_addresses\n        SET next_block_number_to_handle_from = ");
    push_decimal(&mut query, block_number);
    push_str(&mut query, "\n        WHERE chain_id = ");
    push_decimal(&mut query, chain_id);
    push_str(&mut query, " AND address = '");
    push_str(&mut query, address);
    push_str(&mut query, "'");
    query
}

/// The statement moving every handler cursor of a chain.
pub open spec fn update_next_block_numbers_to_handle_from_sql(chain_id: u64, block_number: u64) -> Seq<char> {
    "UPDATE chaindexing_contract_addresses\n        SET next_block_number_to_handle_from = "@
        + decimal(block_number as nat)
        + "\n        WHERE chain_id = "@
        + decimal(chain_id as nat)
}

/// The statement moving every handler cursor of a chain.
pub fn update_next_block_numbers_to_handle_from_query(chain_id: u64, block_number: u64) -> (query: String)
    ensures
        query@ == update_next_block_numbers_to_handle_from_sql(chain_id, block_number),
{
    let mut query = String::new();
    push_str(&mut query, "UPDATE chaindexing_contract_addresses\n        SET next_block_number_to_handle_from = ");
    push_decimal(&mut query, block_number);
    push_str(&mut query, "\n        WHERE chain_id = ");
    push_decimal(&mut query, chain_id);
    query
}

/// The statement moving a contract address's side-effect cursor.
pub open spec fn update_next_block_number_for_side_effects_sql(address: Seq<char>, chain_id: u64, block_number: u64) -> Seq<char> {
    "UPDATE chaindexing_contract_addresses\n        SET next_block_number_for_side_effects = "@
        + decimal(block_number as nat)
        + "\n        WHERE chain_id = "@
        + decimal(chain_id as nat)
        + " AND address = '"@
        + address
        + "'"@
}

/// The statement moving a contract address's side-effect cursor.
pub fn update_next_block_number_for_side_effects_query(address: &str, chain_id: u64, block_number: u64) -> (query: String)
    ensures
        query@ == update_next_block_number_for_side_effects_sql(address@, chain_id, block_number),
{
    let mut query = String::new();
    push_str(&mut query, "UPDATE chaindexing_contract_addresses\n        SET next_block_number_for_side_effects = ");
    push_decimal(&mut query, block_number);
    push_str(&mut query, "\n        WHERE chain_id = ");
    push_decimal(&mut query, chain_id);
    push_str(&mut query, " AND address = '");
    push_str(&mut query, address);
    push_str(&mut query, "'");
    query
}

/// Numbers joined with commas.
pub open spec fn joined_numbers(ids: Seq<i32>) -> Seq<char> {
    join(ids.map_values(|n: i32| decimal_signed(n as int)), ","@)
}

/// Numbers joined with commas.
pub fn join_numbers_with_comma(numbers: &[i32]) -> (text: String)
    ensures
        text@ == joined_numbers(numbers@),
{
    let mut parts: Vec<String> = Vec::new();
    let mut i: usize = 0;
    while i < numbers.len()
        invariant
            i <= numbers@.len(),
            string_views(parts@) == numbers@.map_values(|n: i32| decimal_signed(n as int)).take(i as int),
        decreases numbers@.len() - i,
    {
        let mut part = String::new();
        push_decimal_signed(&mut part, numbers[i] as i64);
        let ghost before = parts@;
        parts.push(part);
        assert(string_views(parts@) =~= string_views(before).push(decimal_signed(numbers@[i as int] as int)));
        assert(string_views(parts@) =~= numbers@.map_values(|n: i32| decimal_signed(n as int)).take(i + 1));
        i = i + 1;
    }
    assert(numbers@.map_values(|n: i32| decimal_signed(n as int)).take(numbers@.len() as int)
        =~= numbers@.map_values(|n: i32| decimal_signed(n as int)));
    crate::text::joined(&parts, ",")
}

/// Each text quoted (not escaped), joined with commas.
pub open spec fn joined_quoted(strings: Seq<Seq<char>>) -> Seq<char> {
    join(strings.map_values(|s: Seq<char>| "'"@ + s + "'"@), ","@)
}

/// Each string quoted (not escaped), joined with commas.
pub fn join_strings_with_comma(strings: &Vec<String>) -> (text: String)
    ensures
        text@ == joined_quoted(string_views(strings@)),
{
    let ghost quoted = string_views(strings@).map_values(|s: Seq<char>| "'"@ + s + "'"@);
    let mut parts: Vec<String> = Vec::new();
    let mut i: usize = 0;
    while i < strings.len()
        invariant
            i <= strings@.len(),
            quoted == string_views(strings@).map_values(|s: Seq<char>| "'"@ + s + "'"@),
            string_views(parts@) == quoted.take(i as int),
        decreases strings@.len() - i,
    {
        let mut part = String::new();
        push_str(&mut part, "'");
        push_str(&mut part, strings[i].as_str());
        push_str(&mut part, "'");
        let ghost before = parts@;
        parts.push(part);
        assert(string_views(parts@) =~= string_views(before).push(quoted[i as int]));
        assert(string_views(parts@) =~= quoted.take(i + 1));
        i = i + 1;
    }
    assert(quoted.take(strings@.len() as int) =~= quoted);
    crate::text::joined(&parts, ",")
}

/// The statement marking reorged blocks as handled at a time (seconds).
pub open spec fn update_reorged_blocks_as_handled_sql(ids: Seq<i32>, handled_at: i64) -> Seq<char> {
    let reorged_block_ids = joined_numbers(ids);
    "UPDATE chaindexing_reorged_blocks\n            SET handled_at = '"@
        + decimal_signed(handled_at as int)
        + "'\n            WHERE id IN ("@
        + reorged_block_ids
        + ")"@
}

/// The statement marking reorged blocks as handled at `handled_at` (seconds); none
/// when there is no block.
pub fn update_reorged_blocks_as_handled_query(reorged_block_ids: &[i32], handled_at: i64) -> (query: Option<String>)
    ensures
        reorged_block_ids@.len() == 0 ==> query is None,
        reorged_block_ids@.len() > 0 ==> (query matches Some(q) && q@ == update_reorged_blocks_as_handled_sql(
            reorged_block_ids@,
            handled_at,
        )),
{
    if reorged_block_ids.len() == 0 {
        return None;
    }
    let ids = join_numbers_with_comma(reorged_block_ids);
    let mut query = String::new();
    push_str(&mut query, "UPDATE chaindexing_reorged_blocks\n            SET handled_at = '");
    push_decimal_signed(&mut query, handled_at);
    push_str(&mut query, "'\n            WHERE id IN (");
    push_str(&mut query, ids.as_str());
    push_str(&mut query, ")");
    Some(query)
}

/// The statement appending a root state.
pub open spec fn append_root_state_sql(state: State) -> Seq<char> {
    "INSERT INTO chaindexing_root_states\n            (reset_count, reset_including_side_effects_count)\n            VALUES ('"@
        + decimal(state.reset_count as nat)
        + "', '"@
        + decimal(state.reset_including_side_effects_count as nat)
        + "')"@
}

/// The statement appending a root state.
pub fn append_root_state_query(new_root_state: &State) -> (query: String)
    ensures
        query@ == append_root_state_sql(*new_root_state),
{
    let reset_count = new_root_state.reset_count;
    let reset_including_side_effects_count = new_root_state.reset_including_side_effects_count;
    let mut query = String::new();
    push_str(&mut query, "INSERT INTO chaindexing_root_states\n            (reset_count, reset_including_side_effects_count)\n            VALUES ('");
    push_decimal(&mut query, reset_count);
    push_str(&mut query, "', '");
    push_decimal(&mut query, reset_including_side_effects_count);
    push_str(&mut query, "')");
    query
}

/// The statement pruning a chain's events below a block.
pub open spec fn prune_events_sql(min_block_number: u64, chain_id: u64) -> Seq<char> {
    "DELETE FROM chaindexing_events\n            WHERE block_number < "@
        + decimal(min_block_number as nat)
        + "\n            AND chain_id = "@
        + decimal(chain_id as nat)
        + "\n            "@
}

/// The statement pruning a chain's events below a block.
pub fn prune_events_query(min_block_number: u64, chain_id: u64) -> (query: String)
    ensures
        query@ == prune_events_sql(min_block_number, chain_id),
{
    let mut query = String::new();
    push_str(&mut query, "DELETE FROM chaindexing_events\n            WHERE block_number < ");
    push_decimal(&mut query, min_block_number);
    push_str(&mut query, "\n            AND chain_id = ");
    push_decimal(&mut query, chain_id);
    push_str(&mut query, "\n            ");
    query
}

/// The statement keeping only the newest nodes.
pub open spec fn prune_nodes_sql(retain_size: u16) -> Seq<char> {
    "DELETE FROM chaindexing_nodes\n            WHERE id NOT IN (\n                SELECT id\n                FROM chaindexing_nodes\n                ORDER BY id DESC\n                LIMIT "@
        + decimal(retain_size as nat)
        + "\n            )\n            "@
}

/// The statement keeping only the newest `retain_size` nodes.
pub fn prune_nodes_query(retain_size: u16) -> (query: String)
    ensures
        query@ == prune_nodes_sql(retain_size),
{
    let mut query = String::new();
    push_str(&mut query, "DELETE FROM chaindexing_nodes\n            WHERE id NOT IN (\n                SELECT id\n                FROM chaindexing_nodes\n                ORDER BY id DESC\n                LIMIT ");
    push_decimal(&mut query, retain_size as u64);
    push_str(&mut query, "\n            )\n            ");
    query
}

/// The statement keeping only the newest root states.
pub open spec fn prune_root_states_sql(retain_size: u64) -> Seq<char> {
    "DELETE FROM chaindexing_root_states\n            WHERE id NOT IN (\n                SELECT id\n                FROM chaindexing_root_states\n                ORDER BY id DESC\n                LIMIT "@
        + decimal(retain_size as nat)
        + "\n            )\n            "@
}

/// The statement keeping only the newest `retain_size` root states.
pub fn prune_root_states_query(retain_size: u64) -> (query: String)
    ensures
        query@ == prune_root_states_sql(retain_size),
{
    let mut query = String::new();
    push_str(&mut query, "DELETE FROM chaindexing_root_states\n            WHERE id NOT IN (\n                SELECT id\n                FROM chaindexing_root_states\n                ORDER BY id DESC\n                LIMIT ");
    push_decimal(&mut query, retain_size);
    push_str(&mut query, "\n            )\n            ");
    query
}

/// The query loading a page of a contract's events from a block on.
pub open spec fn load_events_sql(chain_id: u64, contract_address: Seq<char>, from_block_number: u64, limit: u64) -> Seq<char> {
    "SELECT * from chaindexing_events\n            WHERE chain_id = "@
        + decimal(chain_id as nat)
        + " AND contract_address= '"@
        + contract_address
        + "'\n            AND block_number >= "@
        + decimal(from_block_number as nat)
        + " \n            ORDER BY block_number ASC, log_index ASC\n            LIMIT "@
        + decimal(limit as nat)
}

/// A page of events starts at the asked block and comes back in chain order: the
/// query ends by keeping the blocks from `from_block_number` on, ordering by
/// ascending block number and log index, and taking the first `limit` rows.
pub proof fn lemma_events_page_in_chain_order(chain_id: u64, contract_address: Seq<char>, from_block_number: u64, limit: u64)
    ensures
        exists|head: Seq<char>|
            load_events_sql(chain_id, contract_address, from_block_number, limit) == head
                + "'\n            AND block_number >= "@ + decimal(from_block_number as nat)
                + " \n            ORDER BY block_number ASC, log_index ASC\n            LIMIT "@ + decimal(limit as nat),
{
    let head = "SELECT * from chaindexing_events\n            WHERE chain_id = "@
        + decimal(chain_id as nat)
        + " AND contract_address= '"@
        + contract_address;
    assert(load_events_sql(chain_id, contract_address, from_block_number, limit) == head
        + "'\n            AND block_number >= "@ + decimal(from_block_number as nat)
        + " \n            ORDER BY block_number ASC, log_index ASC\n            LIMIT "@ + decimal(limit as nat));
}

/// The query loading up to `limit` of a contract's events from a block on, in log order.
pub fn load_events_query(chain_id: u64, contract_address: &str, from_block_number: u64, limit: u64) -> (query: String)
    ensures
        query@ == load_events_sql(chain_id, contract_address@, from_block_number, limit),
{
    let mut query = String::new();
    push_str(&mut query, "SELECT * from chaindexing_events\n            WHERE chain_id = ");
    push_decimal(&mut query, chain_id);
    push_str(&mut query, " AND contract_address= '");
    push_str(&mut query, contract_address);
    push_str(&mut query, "'\n            AND block_number >= ");
    push_decimal(&mut query, from_block_number);
    push_str(&mut query, " \n            ORDER BY block_number ASC, log_index ASC\n            LIMIT ");
    push_decimal(&mut query, limit);
    query
}

/// The query loading the latest event of each contract address.
pub open spec fn load_latest_events_sql(addresses: Seq<Seq<char>>) -> Seq<char> {
    "WITH EventsWithRowNumbers AS (\n                SELECT\n                    *,\n                    ROW_NUMBER() OVER (PARTITION BY contract_address ORDER BY block_number DESC, log_index DESC) AS row_no\n                FROM\n                    chaindexing_events\n                WHERE\n                contract_address IN ("@
        + joined_quoted(addresses)
        + ")\n            )\n            SELECT\n                *\n            FROM\n                EventsWithRowNumbers\n            WHERE\n                row_no = 1"@
}

/// The query loading the latest event of each contract address.
pub fn load_latest_events_query(addresses: &Vec<String>) -> (query: String)
    ensures
        query@ == load_latest_events_sql(string_views(addresses@)),
{
    let joined_addresses = join_strings_with_comma(addresses);
    let mut query = String::new();
    push_str(&mut query, "WITH EventsWithRowNumbers AS (\n                SELECT\n                    *,\n                    ROW_NUMBER() OVER (PARTITION BY contract_address ORDER BY block_number DESC, log_index DESC) AS row_no\n                FROM\n                    chaindexing_events\n                WHERE\n                contract_address IN (");
    push_str(&mut query, joined_addresses.as_str());
    push_str(&mut query, ")\n            )\n            SELECT\n                *\n            FROM\n                EventsWithRowNumbers\n            WHERE\n                row_no = 1");
    query
}

/// A query wrapped so that its rows come back as one JSON array (empty when none).
pub open spec fn json_aggregate_sql(query: Seq<char>) -> Seq<char> {
    "WITH result AS ("@
        + query
        + ") SELECT COALESCE(json_agg(result), '[]'::json) FROM result"@
}

/// A query wrapped so that its rows come back as one JSON array (empty when none).
pub fn json_aggregate_query(inner: &str) -> (query: String)
    ensures
        query@ == json_aggregate_sql(inner@),
{
    let mut query = String::new();
    push_str(&mut query, "WITH result AS (");
    push_str(&mut query, inner);
    push_str(&mut query, ") SELECT COALESCE(json_agg(result), '[]'::json) FROM result");
    query
}

/// The statement inserting a node and returning it.
pub const CREATE_AND_LOAD_NEW_NODE_QUERY: &'static str = "INSERT INTO chaindexing_nodes DEFAULT VALUES RETURNING *";

/// The query loading the latest root state.
pub const LOAD_LAST_ROOT_STATE_QUERY: &'static str = "SELECT * FROM chaindexing_root_states
            ORDER BY id DESC
            LIMIT 1";

/// The query loading the reorged blocks not handled yet.
pub const LOAD_UNHANDLED_REORGED_BLOCKS_QUERY: &'static str = "SELECT * FROM chaindexing_reorged_blocks WHERE handled_at is NULL";

} // verus!
