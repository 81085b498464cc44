//! State versions (one row per change of a state, with the event that made it) and
//! state views (the latest version of each state), as SQL text and field maps.
use vstd::prelude::*;
use crate::events::{Event, EventModel};
use crate::field_map::{FieldMap, entry_views, extended, inserted, lemma_inserted_absent, lookup, without_fields};
use crate::states::{
    and_filters_text, column_texts, decimal_string, to_and_filters, to_columns_and_values,
    value_texts,
};
use crate::state_migrations::STATE_VERSIONS_TABLE_PREFIX;
use crate::text::{
    decimal, decimal_signed, join, push_decimal, push_decimal_signed, push_joined, push_sql_literal,
    push_str, sql_literal, string_views,
};

verus! {

/// The version fields that a state view does not carry.
pub const STATE_VERSIONS_UNIQUE_FIELDS: [&'static str; 2] = ["state_version_id", "state_version_is_deleted"];

/// The name of a state's version table.
pub open spec fn version_table_name(state_table_name: Seq<char>) -> Seq<char> {
    STATE_VERSIONS_TABLE_PREFIX@ + state_table_name
}

/// Whether every version has the field.
pub open spec fn all_have(versions: Seq<FieldMap>, field: Seq<char>) -> bool {
    forall|i: int| 0 <= i < versions.len() ==> (#[trigger] lookup(versions[i]@, field)) is Some
}

/// The value of the field in each version.
pub open spec fn field_values(versions: Seq<FieldMap>, field: Seq<char>) -> Seq<Seq<char>> {
    versions.map_values(|v: FieldMap| lookup(v@, field)->0)
}

fn values_of(versions: &[FieldMap], field: &str) -> (values: Vec<String>)
    requires
        all_have(versions@, field@),
    ensures
        string_views(values@) == field_values(versions@, field@),
{
    let mut values: Vec<String> = Vec::new();
    let mut i: usize = 0;
    while i < versions.len()
        invariant
            i <= versions@.len(),
            all_have(versions@, field@),
            string_views(values@) == field_values(versions@, field@).take(i as int),
        decreases versions@.len() - i,
    {
        assert(lookup(versions@[i as int]@, field@) is Some);
        match versions[i].get(field) {
            Some(v) => {
                let ghost before = values@;
                values.push(v);
                assert(string_views(values@) =~= string_views(before).push(field_values(versions@, field@)[i as int]));
            },
            None => {},
        }
        assert(string_views(values@) =~= field_values(versions@, field@).take(i + 1));
        i = i + 1;
    }
    assert(field_values(versions@, field@).take(versions@.len() as int) =~= field_values(versions@, field@));
    values
}

/// The state versions of a state table.
pub struct StateVersions;

/// The query loading a chain's versions of a state from a block on.
pub open spec fn versions_from_block_query(from_block_number: i64, chain_id: i64, state_table_name: Seq<char>) -> Seq<char> {
    "SELECT * FROM "@
        + version_table_name(state_table_name)
        + " \n            WHERE chain_id = "@
        + decimal_signed(chain_id as int)
        + "\n            AND block_number >= "@
        + decimal_signed(from_block_number as int)
}

/// The statement deleting versions by id.
pub open spec fn delete_versions_query(ids: Seq<Seq<char>>, state_table_name: Seq<char>) -> Seq<char> {
    "DELETE FROM "@
        + version_table_name(state_table_name)
        + "\n            WHERE state_version_id IN ("@
        + join(ids, ","@)
        + ")"@
}

/// Each group id as a quoted literal (not escaped).
pub open spec fn quoted_ids(ids: Seq<Seq<char>>) -> Seq<Seq<char>> {
    ids.map_values(|id: Seq<char>| "'"@ + id + "'"@)
}

/// The query loading the latest version of each of the given state groups.
pub open spec fn latest_versions_query(group_ids: Seq<Seq<char>>, state_table_name: Seq<char>) -> Seq<char> {
    "SELECT DISTINCT ON (state_version_group_id) * FROM "@
        + version_table_name(state_table_name)
        + " \n            WHERE state_version_group_id IN ("@
        + join(quoted_ids(group_ids), ","@)
        + ") \n            ORDER BY state_version_group_id, block_number, log_index DESC"@
}

/// The versions loaded for a chain from a block on are those of that chain at or
/// after the block: the query ends by requiring the chain id and
/// `block_number >= from_block_number`.
pub proof fn lemma_versions_from_block_on(from_block_number: i64, chain_id: i64, state_table_name: Seq<char>)
    ensures
        exists|head: Seq<char>|
            versions_from_block_query(from_block_number, chain_id, state_table_name) == head
                + " \n            WHERE chain_id = "@ + decimal_signed(chain_id as int)
                + "\n            AND block_number >= "@ + decimal_signed(from_block_number as int),
{
    let head = "SELECT * FROM "@ + version_table_name(state_table_name);
    assert(versions_from_block_query(from_block_number, chain_id, state_table_name) == head
        + " \n            WHERE chain_id = "@ + decimal_signed(chain_id as int)
        + "\n            AND block_number >= "@ + decimal_signed(from_block_number as int));
}

/// The latest-versions query keeps one row per state group: it selects
/// `DISTINCT ON (state_version_group_id)` from the state's version table, named by
/// the versions prefix followed by the state's table name.
pub proof fn lemma_latest_versions_one_per_group(group_ids: Seq<Seq<char>>, state_table_name: Seq<char>)
    ensures
        exists|rest: Seq<char>|
            latest_versions_query(group_ids, state_table_name) == "SELECT DISTINCT ON (state_version_group_id) * FROM "@
                + "chaindexing_state_versions_for_"@ + state_table_name + rest,
{
    let rest = " \n            WHERE state_version_group_id IN ("@
        + join(quoted_ids(group_ids), ","@)
        + ") \n            ORDER BY state_version_group_id, block_number, log_index DESC"@;
    assert(STATE_VERSIONS_TABLE_PREFIX@ == "chaindexing_state_versions_for_"@);
    assert(latest_versions_query(group_ids, state_table_name) =~= "SELECT DISTINCT ON (state_version_group_id) * FROM "@
        + "chaindexing_state_versions_for_"@ + state_table_name + rest);
}

impl StateVersions {
    /// The query loading a chain's versions of a state from a block on.
    pub fn get_query(from_block_number: i64, chain_id: i64, state_table_name: &str) -> (query: String)
        ensures
            query@ == versions_from_block_query(from_block_number, chain_id, state_table_name@),
    {
        let table_name = StateVersion::table_name(state_table_name);
        let mut query = String::new();
        push_str(&mut query, "SELECT * FROM ");
        push_str(&mut query, table_name.as_str());
        push_str(&mut query, " \n            WHERE chain_id = ");
        push_decimal_signed(&mut query, chain_id);
        push_str(&mut query, "\n            AND block_number >= ");
        push_decimal_signed(&mut query, from_block_number);
        query
    }

    /// The ids of the versions; each must carry `state_version_id`.
    pub fn get_ids(state_versions: &[FieldMap]) -> (ids: Vec<String>)
        requires
            all_have(state_versions@, "state_version_id"@),
        ensures
            string_views(ids@) == field_values(state_versions@, "state_version_id"@),
    {
        values_of(state_versions, "state_version_id")
    }

    /// The group ids of the versions; each must carry `state_version_group_id`.
    pub fn get_group_ids(state_versions: &[FieldMap]) -> (group_ids: Vec<String>)
        requires
            all_have(state_versions@, "state_version_group_id"@),
        ensures
            string_views(group_ids@) == field_values(state_versions@, "state_version_group_id"@),
    {
        values_of(state_versions, "state_version_group_id")
    }

    /// The statement deleting versions by id.
    pub fn delete_by_ids_query(ids: &Vec<String>, state_table_name: &str) -> (query: String)
        ensures
            query@ == delete_versions_query(string_views(ids@), state_table_name@),
    {
        let table_name = StateVersion::table_name(state_table_name);
        let mut query = String::new();
        push_str(&mut query, "DELETE FROM ");
        push_str(&mut query, table_name.as_str());
        push_str(&mut query, "\n            WHERE state_version_id IN (");
        push_joined(&mut query, ids, ",");
        push_str(&mut query, ")");
        query
    }

    /// The query loading the latest version of each of the given state groups.
    pub fn get_latest_query(group_ids: &Vec<String>, state_table_name: &str) -> (query: String)
        ensures
            query@ == latest_versions_query(string_views(group_ids@), state_table_name@),
    {
        let table_name = StateVersion::table_name(state_table_name);
        let mut quoted: Vec<String> = Vec::new();
        let mut i: usize = 0;
        while i < group_ids.len()
            invariant
                i <= group_ids@.len(),
                string_views(quoted@) == quoted_ids(string_views(group_ids@)).take(i as int),
            decreases group_ids@.len() - i,
        {
            let mut q = String::new();
            push_str(&mut q, "'");
            push_str(&mut q, group_ids[i].as_str());
            push_str(&mut q, "'");
            let ghost before = quoted@;
            quoted.push(q);
            assert(string_views(quoted@) =~= string_views(before).push(quoted_ids(string_views(group_ids@))[i as int]));
            assert(string_views(quoted@) =~= quoted_ids(string_views(group_ids@)).take(i + 1));
            i = i + 1;
        }
        assert(quoted_ids(string_views(group_ids@)).take(group_ids@.len() as int) =~= quoted_ids(string_views(group_ids@)));
        let mut query = String::new();
        push_str(&mut query, "SELECT DISTINCT ON (state_version_group_id) * FROM ");
        push_str(&mut query, table_name.as_str());
        push_str(&mut query, " \n            WHERE state_version_group_id IN (");
        push_joined(&mut query, &quoted, ",");
        push_str(&mut query, ") \n            ORDER BY state_version_group_id, block_number, log_index DESC");
        query
    }
}

/// One version of a state.
pub struct StateVersion;

/// The fields a version takes from the event that made it, in this order: contract
/// address, chain, transaction hash and index, log index, block number and hash.
pub open spec fn event_part(event: EventModel) -> Seq<(Seq<char>, Seq<char>)> {
    seq![
        ("contract_address"@, event.contract_address),
        ("chain_id"@, decimal_signed(event.chain_id as int)),
        ("transaction_hash"@, event.transaction_hash),
        ("transaction_index"@, decimal_signed(event.transaction_index as int)),
        ("log_index"@, decimal_signed(event.log_index as int)),
        ("block_number"@, decimal_signed(event.block_number as int)),
        ("block_hash"@, event.block_hash),
    ]
}

/// The statement appending a version: the partial version with the event's fields
/// set on it, returning the stored row.
pub open spec fn append_version_query(partial: Seq<(Seq<char>, Seq<char>)>, state_table_name: Seq<char>, event: EventModel) -> Seq<char> {
    let version = extended(partial, event_part(event));
    "INSERT INTO "@
        + version_table_name(state_table_name)
        + " ("@
        + join(column_texts(version), ","@)
        + ") VALUES ("@
        + join(value_texts(version), ","@)
        + ")\n            RETURNING *"@
}

impl StateVersion {
    /// The name of a state's version table: the prefix, then the state table's name.
    pub fn table_name(state_table_name: &str) -> (name: String)
        ensures
            name@ == version_table_name(state_table_name@),
    {
        let mut name = String::new();
        push_str(&mut name, STATE_VERSIONS_TABLE_PREFIX);
        push_str(&mut name, state_table_name);
        name
    }

    /// Whether the version marks a deletion; it must carry `state_version_is_deleted`.
    pub fn was_deleted(state_version: &FieldMap) -> (deleted: bool)
        requires
            lookup(state_version@, "state_version_is_deleted"@) is Some,
        ensures
            deleted == (lookup(state_version@, "state_version_is_deleted"@)->0 == "true"@),
    {
        match state_version.get("state_version_is_deleted") {
            Some(v) => crate::text::str_equals(v.as_str(), "true"),
            None => false,
        }
    }

    /// The version's state group; it must carry `state_version_group_id`.
    pub fn get_group_id(state_version: &FieldMap) -> (group_id: String)
        requires
            lookup(state_version@, "state_version_group_id"@) is Some,
        ensures
            group_id@ == lookup(state_version@, "state_version_group_id"@)->0,
    {
        match state_version.get("state_version_group_id") {
            Some(v) => v,
            None => String::new(),
        }
    }

    /// The first version of a new state: the state with its group id set.
    pub fn created(state: &FieldMap, group_id: &str) -> (version: FieldMap)
        ensures
            version@ == inserted(state@, "state_version_group_id"@, group_id@),
    {
        let mut version = state.duplicate();
        version.insert("state_version_group_id", group_id);
        version
    }

    /// The version after an update: the state with the updated fields set.
    pub fn updated(state: &FieldMap, updates: &FieldMap) -> (version: FieldMap)
        ensures
            version@ == extended(state@, updates@),
    {
        let mut version = state.duplicate();
        version.extend(updates);
        version
    }

    /// The version marking a deletion.
    pub fn deleted(state: &FieldMap) -> (version: FieldMap)
        ensures
            version@ == inserted(state@, "state_version_is_deleted"@, "true"@),
    {
        let mut version = state.duplicate();
        version.insert("state_version_is_deleted", "true");
        version
    }

    /// The fields a version takes from the event that made it.
    pub fn extract_part_from_event(event: &Event) -> (part: FieldMap)
        ensures
            part@ == event_part(event@),
    {
        proof {
            reveal_strlit("contract_address");
            reveal_strlit("chain_id");
            reveal_strlit("transaction_hash");
            reveal_strlit("transaction_index");
            reveal_strlit("log_index");
            reveal_strlit("block_number");
            reveal_strlit("block_hash");
        }
        let ghost fields = event_part(event@);
        assert(fields[0].0.len() == 16 && fields[1].0.len() == 8 && fields[2].0.len() == 16);
        assert(fields[3].0.len() == 17 && fields[4].0.len() == 9 && fields[5].0.len() == 12);
        assert(fields[6].0.len() == 10);
        assert(fields[2].0[0] != fields[0].0[0]);
        let mut part = FieldMap::new();
        part.insert("contract_address", event.contract_address.as_str());
        proof { lemma_inserted_absent(Seq::empty(), fields[0].0, fields[0].1); }
        assert(part@ =~= fields.take(1));
        part.insert("chain_id", decimal_string(event.chain_id).as_str());
        proof {
            assert(fields[1].0.len() != fields[0].0.len());
            lemma_inserted_absent(fields.take(1), fields[1].0, fields[1].1);
        }
        assert(part@ =~= fields.take(2));
        part.insert("transaction_hash", event.transaction_hash.as_str());
        proof {
            assert(fields[2].0[0] != fields[0].0[0]);
            assert(fields[2].0.len() != fields[1].0.len());
            lemma_inserted_absent(fields.take(2), fields[2].0, fields[2].1);
        }
        assert(part@ =~= fields.take(3));
        part.insert("transaction_index", decimal_string(event.transaction_index as i64).as_str());
        proof { lemma_inserted_absent(fields.take(3), fields[3].0, fields[3].1); }
        assert(part@ =~= fields.take(4));
        part.insert("log_index", decimal_string(event.log_index as i64).as_str());
        proof { lemma_inserted_absent(fields.take(4), fields[4].0, fields[4].1); }
        assert(part@ =~= fields.take(5));
        part.insert("block_number", decimal_string(event.block_number).as_str());
        proof { lemma_inserted_absent(fields.take(5), fields[5].0, fields[5].1); }
        assert(part@ =~= fields.take(6));
        part.insert("block_hash", event.block_hash.as_str());
        proof { lemma_inserted_absent(fields.take(6), fields[6].0, fields[6].1); }
        assert(part@ =~= event_part(event@));
        part
    }

    /// The statement appending a version (see [`append_version_query`]).
    pub fn append_query(partial_state_version: &FieldMap, state_table_name: &str, event: &Event) -> (query: String)
        ensures
            query@ == append_version_query(partial_state_version@, state_table_name@, event@),
    {
        let mut version = partial_state_version.duplicate();
        version.extend(&StateVersion::extract_part_from_event(event));
        let (columns, values) = to_columns_and_values(&version);
        let table_name = StateVersion::table_name(state_table_name);
        let mut query = String::new();
        push_str(&mut query, "INSERT INTO ");
        push_str(&mut query, table_name.as_str());
        push_str(&mut query, " (");
        push_joined(&mut query, &columns, ",");
        push_str(&mut query, ") VALUES (");
        push_joined(&mut query, &values, ",");
        push_str(&mut query, ")\n            RETURNING *");
        query
    }
}

/// The latest versions of states, as their views.
pub struct StateViews;

/// The current view of a state.
pub struct StateView;

/// The query reading the stored view matching every field of a partial view.
pub open spec fn complete_view_query(state_view: Seq<(Seq<char>, Seq<char>)>, table_name: Seq<char>) -> Seq<char> {
    "SELECT * FROM "@
        + table_name
        + " WHERE "@
        + and_filters_text(state_view)
}

/// The statement deleting the view of a state group.
pub open spec fn delete_view_query(state_version_group_id: Seq<char>, table_name: Seq<char>) -> Seq<char> {
    "DELETE FROM "@
        + table_name
        + " WHERE state_version_group_id = "@
        + sql_literal(state_version_group_id)
}

/// The statement inserting a view.
pub open spec fn create_view_query(view: Seq<(Seq<char>, Seq<char>)>, table_name: Seq<char>) -> Seq<char> {
    "INSERT INTO "@
        + table_name
        + " ("@
        + join(column_texts(view), ","@)
        + ") VALUES ("@
        + join(value_texts(view), ","@)
        + ")"@
}

/// A view's fields: the latest version without the version-only fields.
pub open spec fn view_of_version(version: Seq<(Seq<char>, Seq<char>)>) -> Seq<(Seq<char>, Seq<char>)> {
    without_fields(version, STATE_VERSIONS_UNIQUE_FIELDS@.map_values(|f: &str| f@))
}

/// The statements bringing a state's view up to its latest version: delete the
/// group's view, then (unless the version marks a deletion) insert the new one.
pub open spec fn refresh_view_queries(latest: Seq<(Seq<char>, Seq<char>)>, table_name: Seq<char>) -> Seq<Seq<char>> {
    let group = lookup(latest, "state_version_group_id"@)->0;
    if lookup(latest, "state_version_is_deleted"@)->0 == "true"@ {
        seq![delete_view_query(group, table_name)]
    } else {
        seq![delete_view_query(group, table_name), create_view_query(view_of_version(latest), table_name)]
    }
}

impl StateView {
    /// The query reading the stored view matching every field of a partial view.
    pub fn get_complete_query(state_view: &FieldMap, table_name: &str) -> (query: String)
        ensures
            query@ == complete_view_query(state_view@, table_name@),
    {
        let conditions = to_and_filters(state_view);
        let mut query = String::new();
        push_str(&mut query, "SELECT * FROM ");
        push_str(&mut query, table_name);
        push_str(&mut query, " WHERE ");
        push_str(&mut query, conditions.as_str());
        query
    }

    /// A view's fields from the latest version of its state.
    pub fn from_latest_state_version(latest_state_version: &FieldMap) -> (view: FieldMap)
        ensures
            view@ == view_of_version(latest_state_version@),
    {
        latest_state_version.without(&STATE_VERSIONS_UNIQUE_FIELDS)
    }

    /// The statement deleting the view of a state group (the id quoted and escaped).
    pub fn delete_query(state_version_group_id: &str, table_name: &str) -> (query: String)
        ensures
            query@ == delete_view_query(state_version_group_id@, table_name@),
    {
        let mut query = String::new();
        push_str(&mut query, "DELETE FROM ");
        push_str(&mut query, table_name);
        push_str(&mut query, " WHERE state_version_group_id = ");
        push_sql_literal(&mut query, state_version_group_id);
        query
    }

    /// The statement inserting a view.
    pub fn create_query(new_state_view: &FieldMap, table_name: &str) -> (query: String)
        ensures
            query@ == create_view_query(new_state_view@, table_name@),
    {
        let (columns, values) = to_columns_and_values(new_state_view);
        let mut query = String::new();
        push_str(&mut query, "INSERT INTO ");
        push_str(&mut query, table_name);
        push_str(&mut query, " (");
        push_joined(&mut query, &columns, ",");
        push_str(&mut query, ") VALUES (");
        push_joined(&mut query, &values, ",");
        push_str(&mut query, ")");
        query
    }

    /// The statements refreshing a state's view from its latest version, which must
    /// carry its group id and deletion mark.
    pub fn refresh_queries(latest_state_version: &FieldMap, table_name: &str) -> (queries: Vec<String>)
        requires
            lookup(latest_state_version@, "state_version_group_id"@) is Some,
            lookup(latest_state_version@, "state_version_is_deleted"@) is Some,
        ensures
            string_views(queries@) == refresh_view_queries(latest_state_version@, table_name@),
    {
        let group_id = StateVersion::get_group_id(latest_state_version);
        let mut queries: Vec<String> = Vec::new();
        queries.push(StateView::delete_query(group_id.as_str(), table_name));
        if !StateVersion::was_deleted(latest_state_version) {
            let view = StateView::from_latest_state_version(latest_state_version);
            queries.push(StateView::create_query(&view, table_name));
        }
        assert(string_views(queries@) =~= refresh_view_queries(latest_state_version@, table_name@));
        queries
    }
}

/// The statement pruning a chain's versions of a state below a block.
pub open spec fn prune_versions_query(state_table_name: Seq<char>, min_block_number: u64, chain_id: u64) -> Seq<char> {
    let state_version_table_name = version_table_name(state_table_name);
    "\n            DELETE FROM "@
        + state_version_table_name
        + "\n            WHERE block_number < "@
        + decimal(min_block_number as nat)
        + " \n            AND chain_id = "@
        + decimal(chain_id as nat)
        + "\n            "@
}

/// The statement pruning a chain's versions of a state below a block.
pub fn prune_state_versions_query(state_table_name: &str, min_block_number: u64, chain_id: u64) -> (query: String)
    ensures
        query@ == prune_versions_query(state_table_name@, min_block_number, chain_id),
{
    let state_version_table_name = StateVersion::table_name(state_table_name);
    let mut query = String::new();
    push_str(&mut query, "\n            DELETE FROM ");
    push_str(&mut query, state_version_table_name.as_str());
    push_str(&mut query, "\n            WHERE block_number < ");
    push_decimal(&mut query, min_block_number);
    push_str(&mut query, " \n            AND chain_id = ");
    push_decimal(&mut query, chain_id);
    push_str(&mut query, "\n            ");
    query
}

} // verus!

verus! {

impl StateView {
    /// The fields that find a contract state's stored view for an event: the state's
    /// own view with the event's chain and contract address set.
    pub fn contract_view_key(view: &FieldMap, event: &Event) -> (key: FieldMap)
        ensures
            key@ == inserted(
                inserted(view@, "chain_id"@, decimal_signed(event.chain_id as int)),
                "contract_address"@,
                event@.contract_address,
            ),
    {
        let mut key = view.duplicate();
        key.insert("chain_id", decimal_string(event.chain_id).as_str());
        key.insert("contract_address", event.contract_address.as_str());
        key
    }
}

} // verus!

verus! {

/// A state view never carries the version-only fields.
pub proof fn lemma_view_drops_version_fields(version: Seq<(Seq<char>, Seq<char>)>)
    ensures
        lookup(view_of_version(version), "state_version_id"@) is None,
        lookup(view_of_version(version), "state_version_is_deleted"@) is None,
{
    let keys = STATE_VERSIONS_UNIQUE_FIELDS@.map_values(|f: &str| f@);
    assert(keys[0] == "state_version_id"@);
    assert(keys[1] == "state_version_is_deleted"@);
    crate::field_map::lemma_without_fields_drops(version, keys, "state_version_id"@);
    crate::field_map::lemma_without_fields_drops(version, keys, "state_version_is_deleted"@);
}

} // verus!
