//! What states are read and written by: field maps of a state, filters scoped to a
//! contract, a chain or all chains, updates, and the SQL text built from them.
use vstd::prelude::*;
use crate::events::{Event, EventModel};
use crate::field_map::{FieldMap, entry_views, inserted, lookup};
use crate::text::{
    decimal_signed, escape_quotes, join, push_decimal_signed, push_joined, push_sql_literal,
    push_str, sql_literal, string_views,
};

verus! {

/// A JSON value of a loaded row, as far as states read it: its kind and its JSON text
/// (`serde_json`'s `to_string`).
pub enum JsonValue {
    Null,
    Object(String),
    /// Any other value (string, number, boolean, array), by its JSON text.
    Other(String),
}

/// `s` without double quotes.
pub open spec fn without_double_quotes(s: Seq<char>) -> Seq<char>
    decreases s.len(),
{
    if s.len() == 0 {
        Seq::empty()
    } else {
        let rest = without_double_quotes(s.drop_last());
        if s.last() == '"' {
            rest
        } else {
            rest.push(s.last())
        }
    }
}

/// The text a state field takes from a JSON value: an object's JSON text, any other
/// value's text without double quotes; `None` for null.
pub open spec fn json_field_text(v: JsonValue) -> Option<Seq<char>> {
    match v {
        JsonValue::Null => None,
        JsonValue::Object(t) => Some(t@),
        JsonValue::Other(t) => Some(without_double_quotes(t@)),
    }
}

/// The state fields of a loaded row, set in order; null fields are left out.
pub open spec fn row_fields(row: Seq<(String, JsonValue)>) -> Seq<(Seq<char>, Seq<char>)>
    decreases row.len(),
{
    if row.len() == 0 {
        Seq::empty()
    } else {
        let prefix = row_fields(row.drop_last());
        match json_field_text(row.last().1) {
            Some(t) => inserted(prefix, row.last().0@, t),
            None => prefix,
        }
    }
}

fn push_without_double_quotes(out: &mut String, s: &str)
    ensures
        final(out)@ == old(out)@ + without_double_quotes(s@),
{
    let chars = crate::text::chars_of(s);
    let ghost start = out@;
    let mut i: usize = 0;
    while i < chars.len()
        invariant
            i <= chars@.len(),
            chars@ == s@,
            out@ == start + without_double_quotes(chars@.take(i as int)),
        decreases chars@.len() - i,
    {
        assert(chars@.take(i + 1).drop_last() =~= chars@.take(i as int));
        if chars[i] != '"' {
            crate::text::push_char(out, chars[i]);
        }
        i = i + 1;
    }
    assert(chars@.take(chars@.len() as int) =~= chars@);
}

/// The state fields of a loaded row: objects keep their JSON text, other values lose
/// their double quotes, nulls are dropped.
pub fn serde_map_to_string_map(row: &Vec<(String, JsonValue)>) -> (fields: FieldMap)
    ensures
        fields@ == row_fields(row@),
{
    let mut fields = FieldMap::new();
    let mut i: usize = 0;
    while i < row.len()
        invariant
            i <= row@.len(),
            fields@ == row_fields(row@.take(i as int)),
        decreases row@.len() - i,
    {
        proof {
            assert(row@.take(i + 1).drop_last() =~= row@.take(i as int));
            assert(row@.take(i + 1).last() == row@[i as int]);
        }
        match &row[i].1 {
            JsonValue::Null => {},
            JsonValue::Object(t) => {
                fields.insert(row[i].0.as_str(), t.as_str());
            },
            JsonValue::Other(t) => {
                let mut text = String::new();
                push_without_double_quotes(&mut text, t.as_str());
                fields.insert(row[i].0.as_str(), text.as_str());
            },
        }
        i = i + 1;
    }
    assert(row@.take(row@.len() as int) =~= row@);
    fields
}

/// The `column = 'value'` conditions of a field map, values quoted and escaped.
pub open spec fn condition_texts(e: Seq<(Seq<char>, Seq<char>)>) -> Seq<Seq<char>> {
    e.map_values(|p: (Seq<char>, Seq<char>)| p.0 + " = "@ + sql_literal(p.1))
}

/// The conditions of a field map joined with `AND`.
pub open spec fn and_filters_text(e: Seq<(Seq<char>, Seq<char>)>) -> Seq<char> {
    join(condition_texts(e), " AND "@)
}

/// The SQL condition matching every field of the map: `column = 'value'` joined
/// with ` AND `, each value quoted with its single quotes doubled.
pub fn to_and_filters(state: &FieldMap) -> (filters: String)
    ensures
        filters@ == and_filters_text(state@),
{
    let pairs = state.pairs();
    let mut conditions: Vec<String> = Vec::new();
    let mut i: usize = 0;
    while i < pairs.len()
        invariant
            i <= pairs@.len(),
            entry_views(pairs@) == state@,
            string_views(conditions@) == condition_texts(state@).take(i as int),
        decreases pairs@.len() - i,
    {
        let mut condition = String::new();
        push_str(&mut condition, pairs[i].0.as_str());
        push_str(&mut condition, " = ");
        push_sql_literal(&mut condition, pairs[i].1.as_str());
        let ghost before = conditions@;
        conditions.push(condition);
        assert(string_views(conditions@) =~= string_views(before).push(condition_texts(state@)[i as int]));
        assert(string_views(conditions@) =~= condition_texts(state@).take(i + 1));
        i = i + 1;
    }
    assert(condition_texts(state@).take(pairs@.len() as int) =~= condition_texts(state@));
    crate::text::joined(&conditions, " AND ")
}

/// The column names of a field map.
pub open spec fn column_texts(e: Seq<(Seq<char>, Seq<char>)>) -> Seq<Seq<char>> {
    e.map_values(|p: (Seq<char>, Seq<char>)| p.0)
}

/// The values of a field map, each as a quoted SQL literal with single quotes doubled.
pub open spec fn value_texts(e: Seq<(Seq<char>, Seq<char>)>) -> Seq<Seq<char>> {
    e.map_values(|p: (Seq<char>, Seq<char>)| sql_literal(p.1))
}

/// The columns of a field map and, in the same order, its values as quoted SQL
/// literals.
pub fn to_columns_and_values(state: &FieldMap) -> (columns_and_values: (Vec<String>, Vec<String>))
    ensures
        string_views(columns_and_values.0@) == column_texts(state@),
        string_views(columns_and_values.1@) == value_texts(state@),
{
    let pairs = state.pairs();
    let mut columns: Vec<String> = Vec::new();
    let mut values: Vec<String> = Vec::new();
    let mut i: usize = 0;
    while i < pairs.len()
        invariant
            i <= pairs@.len(),
            entry_views(pairs@) == state@,
            string_views(columns@) == column_texts(state@).take(i as int),
            string_views(values@) == value_texts(state@).take(i as int),
        decreases pairs@.len() - i,
    {
        let ghost before_columns = columns@;
        let ghost before_values = values@;
        columns.push(pairs[i].0.clone());
        let mut value = String::new();
        push_sql_literal(&mut value, pairs[i].1.as_str());
        values.push(value);
        assert(string_views(columns@) =~= string_views(before_columns).push(column_texts(state@)[i as int]));
        assert(string_views(values@) =~= string_views(before_values).push(value_texts(state@)[i as int]));
        assert(string_views(columns@) =~= column_texts(state@).take(i + 1));
        assert(string_views(values@) =~= value_texts(state@).take(i + 1));
        i = i + 1;
    }
    assert(column_texts(state@).take(pairs@.len() as int) =~= column_texts(state@));
    assert(value_texts(state@).take(pairs@.len() as int) =~= value_texts(state@));
    (columns, values)
}

/// The query reading the rows of a state table that match the filters (every row
/// when there are none).
pub open spec fn read_query_text(table_name: Seq<char>, filters: Seq<(Seq<char>, Seq<char>)>) -> Seq<char> {
    if filters.len() == 0 {
        "SELECT * FROM "@
        + table_name
    } else {
        "SELECT * FROM "@
        + table_name
        + "\n            WHERE "@
        + and_filters_text(filters)
    }
}

/// The query reading the rows of a state table that match the filters.
pub fn read_query(table_name: &str, filters: &FieldMap) -> (query: String)
    ensures
        query@ == read_query_text(table_name@, filters@),
{
    let mut query = String::new();
    if filters.is_empty() {
        push_str(&mut query, "SELECT * FROM ");
        push_str(&mut query, table_name);
    } else {
        let conditions = to_and_filters(filters);
        push_str(&mut query, "SELECT * FROM ");
        push_str(&mut query, table_name);
        push_str(&mut query, "\n            WHERE ");
        push_str(&mut query, conditions.as_str());
    }
    query
}

/// Where filters apply: to one contract, one chain, or all chains.
#[derive(Clone, Copy, Debug, PartialEq, Eq, Structural)]
pub enum FiltersContext {
    Contract,
    Chain,
    MultiChain,
}

/// The abstract value of [`Filters`].
pub struct FiltersModel {
    pub values: Seq<(Seq<char>, Seq<char>)>,
    pub context: FiltersContext,
}

/// Filters for querying a state's rows.
pub struct Filters {
    values: FieldMap,
    context: FiltersContext,
}

impl View for Filters {
    type V = FiltersModel;

    closed spec fn view(&self) -> FiltersModel {
        FiltersModel { values: self.values@, context: self.context }
    }
}

impl Clone for Filters {
    /// A copy with the same values and context.
    fn clone(&self) -> (copy: Self)
        ensures
            copy@ == self@,
    {
        Filters { values: self.values.duplicate(), context: self.context }
    }
}

/// The decimal text of a signed integer.
pub fn decimal_string(n: i64) -> (text: String)
    ensures
        text@ == decimal_signed(n as int),
{
    let mut text = String::new();
    push_decimal_signed(&mut text, n);
    text
}

/// The filters an event's handler applies: the given ones, plus the event's chain
/// (for chain and contract scope) and contract address (for contract scope).
pub open spec fn event_filters(f: FiltersModel, event: EventModel) -> Seq<(Seq<char>, Seq<char>)> {
    match f.context {
        FiltersContext::Contract => inserted(
            inserted(f.values, "chain_id"@, decimal_signed(event.chain_id as int)),
            "contract_address"@,
            event.contract_address,
        ),
        FiltersContext::Chain => inserted(f.values, "chain_id"@, decimal_signed(event.chain_id as int)),
        FiltersContext::MultiChain => f.values,
    }
}

impl Filters {
    /// Filters with one field, scoped to the event's contract.
    pub fn new(field: &str, value: &str) -> (filters: Filters)
        ensures
            filters@.values == seq![(field@, value@)],
            filters@.context == FiltersContext::Contract,
    {
        Filters { values: FieldMap::with_field(field, value), context: FiltersContext::Contract }
    }

    /// The filters with one more field (a field given again takes the new value).
    pub fn add(self, field: &str, value: &str) -> (filters: Filters)
        ensures
            filters@.values == inserted(self@.values, field@, value@),
            filters@.context == self@.context,
    {
        let mut filters = self;
        filters.add_mut(field, value);
        filters
    }

    /// Adds one field in place (a field given again takes the new value).
    pub fn add_mut(&mut self, field: &str, value: &str)
        ensures
            final(self)@.values == inserted(old(self)@.values, field@, value@),
            final(self)@.context == old(self)@.context,
    {
        self.values.insert(field, value);
    }

    /// The fields and values the filters hold.
    pub fn values(&self) -> (values: &FieldMap)
        ensures
            values@ == self@.values,
    {
        &self.values
    }

    /// Where the filters apply.
    pub fn context(&self) -> (context: FiltersContext)
        ensures
            context == self@.context,
    {
        self.context
    }

    /// The filters scoped to the event's contract.
    pub fn within_contract(self) -> (filters: Filters)
        ensures
            filters@ == (FiltersModel { context: FiltersContext::Contract, ..self@ }),
    {
        Filters { values: self.values, context: FiltersContext::Contract }
    }

    /// The filters scoped to the event's chain.
    pub fn within_chain(self) -> (filters: Filters)
        ensures
            filters@ == (FiltersModel { context: FiltersContext::Chain, ..self@ }),
    {
        Filters { values: self.values, context: FiltersContext::Chain }
    }

    /// The filters across all chains.
    pub fn within_multi_chain(self) -> (filters: Filters)
        ensures
            filters@ == (FiltersModel { context: FiltersContext::MultiChain, ..self@ }),
    {
        Filters { values: self.values, context: FiltersContext::MultiChain }
    }

    /// The fields that select an event's state rows (see [`event_filters`]).
    pub fn get(&self, event: &Event) -> (fields: FieldMap)
        ensures
            fields@ == event_filters(self@, event@),
    {
        let mut fields = self.values.duplicate();
        match self.context {
            FiltersContext::Contract => {
                fields.insert("chain_id", decimal_string(event.chain_id).as_str());
                fields.insert("contract_address", event.contract_address.as_str());
            },
            FiltersContext::Chain => {
                fields.insert("chain_id", decimal_string(event.chain_id).as_str());
            },
            FiltersContext::MultiChain => {},
        }
        fields
    }
}

/// The query a handler runs to read the state rows its filters select for an event.
pub open spec fn read_many_query_text(table_name: Seq<char>, filters: Seq<(Seq<char>, Seq<char>)>) -> Seq<char> {
    "SELECT * FROM "@
        + table_name
        + " \n        WHERE "@
        + and_filters_text(filters)
}

/// The query a handler runs to read the state rows its filters select for an event.
pub fn read_many_query(filters: &Filters, event: &Event, table_name: &str) -> (query: String)
    ensures
        query@ == read_many_query_text(table_name@, event_filters(filters@, event@)),
{
    let conditions = to_and_filters(&filters.get(event));
    let mut query = String::new();
    push_str(&mut query, "SELECT * FROM ");
    push_str(&mut query, table_name);
    push_str(&mut query, " \n        WHERE ");
    push_str(&mut query, conditions.as_str());
    query
}

/// The fields to set on a state.
pub struct Updates {
    values: FieldMap,
}

impl View for Updates {
    type V = Seq<(Seq<char>, Seq<char>)>;

    closed spec fn view(&self) -> Seq<(Seq<char>, Seq<char>)> {
        self.values@
    }
}

impl Updates {
    /// Updates setting one field.
    pub fn new(field: &str, value: &str) -> (updates: Updates)
        ensures
            updates@ == seq![(field@, value@)],
    {
        Updates { values: FieldMap::with_field(field, value) }
    }

    /// The updates with one more field (a field given again takes the new value).
    pub fn add(self, field: &str, value: &str) -> (updates: Updates)
        ensures
            updates@ == inserted(self@, field@, value@),
    {
        let mut updates = self;
        updates.add_mut(field, value);
        updates
    }

    /// Adds one field in place (a field given again takes the new value).
    pub fn add_mut(&mut self, field: &str, value: &str)
        ensures
            final(self)@ == inserted(old(self)@, field@, value@),
    {
        self.values.insert(field, value);
    }

    /// The fields to set.
    pub fn values(&self) -> (values: &FieldMap)
        ensures
            values@ == self@,
    {
        &self.values
    }
}

} // verus!
