//! Expansion of a state's user migrations into the state-view table, the
//! state-version table, their backward-compatible column additions and the
//! state-version unique index. SQL is parsed and rendered by `sqlparser`.
use vstd::prelude::*;
use sqlparser::ast::{CreateTable, DataType, Statement};
use sqlparser::dialect::PostgreSqlDialect;
use sqlparser::parser::Parser;
use crate::char_seq::{
    contains_text, count_matches, first_word, first_word_of, replace_text, split_chars, split_text,
    str_contains, str_count_matches, str_replace, trim_chars, trim_end_char, trim_end_char_of,
    trim_start_char, trim_start_char_of, trim_text,
};
use crate::text::{chars_of, join, joined, push_str, string_of, string_views};

verus! {

#[verifier::external_type_specification]
#[verifier::external_body]
pub struct ExStatement(Statement);

#[verifier::external_type_specification]
#[verifier::external_body]
pub struct ExCreateTable(CreateTable);

/// The statements `sqlparser` reads from `sql` with the PostgreSQL dialect, or
/// `None` when it reports a parse error.
pub uninterp spec fn postgres_statements(sql: Seq<char>) -> Option<Seq<Statement>>;

/// The `CREATE TABLE` a statement is, if it is one.
pub uninterp spec fn statement_create_table(statement: Statement) -> Option<CreateTable>;

/// The table name of a `CREATE TABLE`, as `sqlparser` prints it.
pub uninterp spec fn create_table_name(table: CreateTable) -> Seq<char>;

/// The column definitions of a `CREATE TABLE`, in order.
pub uninterp spec fn create_table_columns(table: CreateTable) -> Seq<SqlColumn>;

/// The SQL `sqlparser` prints for a `CREATE TABLE`.
pub uninterp spec fn rendered_create_table(table: CreateTable) -> Seq<char>;

/// A `CREATE TABLE` whose column list has the columns of `extra` pushed at its end.
pub uninterp spec fn columns_appended(table: CreateTable, extra: CreateTable) -> CreateTable;

/// `str::to_uppercase`: Unicode uppercasing.
pub uninterp spec fn unicode_uppercase(s: Seq<char>) -> Seq<char>;

/// A column's type, as far as the migrations distinguish types.
pub enum SqlColumnType {
    Json,
    Jsonb,
    /// A type `sqlparser` does not know, by its printed name.
    Custom(String),
    Other,
}

/// A column definition: its name and type.
pub struct SqlColumn {
    pub name: String,
    pub data_type: SqlColumnType,
}

/// Parses `sql` with `sqlparser::parser::Parser::parse_sql` and `PostgreSqlDialect`:
/// its statements, or `None` on a parse error. The statements are those named by
/// `postgres_statements` for the same text.
#[verifier::external_body]
fn parse_postgres_sql(sql: &str) -> (parsed: Option<Vec<Statement>>)
    ensures
        match (parsed, postgres_statements(sql@)) {
            (Some(v), Some(s)) => v@ == s,
            (None, None) => true,
            _ => false,
        },
{
    Parser::parse_sql(&PostgreSqlDialect {}, sql).ok()
}

/// Matches a `sqlparser::ast::Statement` on its `CreateTable` variant: the table the
/// statement creates (`statement_create_table`), or `None` for another statement.
#[verifier::external_body]
fn create_table_of(statement: &Statement) -> (table: Option<&CreateTable>)
    ensures
        match (table, statement_create_table(*statement)) {
            (Some(t), Some(u)) => *t == u,
            (None, None) => true,
            _ => false,
        },
{
    match statement {
        Statement::CreateTable(table) => Some(table),
        _ => None,
    }
}

/// Prints a `CREATE TABLE`'s name with `sqlparser`'s `Display` for `ObjectName`; the
/// text is `create_table_name` of the table.
#[verifier::external_body]
fn table_name_of(table: &CreateTable) -> (name: String)
    ensures
        name@ == create_table_name(*table),
{
    table.name.to_string()
}

/// Reads the columns of a `sqlparser` `CREATE TABLE`: each `ColumnDef`'s identifier
/// value and its `DataType`, with `JSON`, `JSONB` and `Custom` told apart by variant
/// and a custom type's name printed by `ObjectName`'s `Display`; the list is
/// `create_table_columns` of the table.
#[verifier::external_body]
fn columns_of(table: &CreateTable) -> (columns: Vec<SqlColumn>)
    ensures
        columns@ == create_table_columns(*table),
{
    table.columns.iter().map(|column| SqlColumn {
        name: column.name.value.clone(),
        data_type: match &column.data_type {
            DataType::JSON => SqlColumnType::Json,
            DataType::JSONB => SqlColumnType::Jsonb,
            DataType::Custom(name, _) => SqlColumnType::Custom(name.to_string()),
            _ => SqlColumnType::Other,
        },
    }).collect()
}

/// Prints a `CREATE TABLE` with `sqlparser`'s `Display` for `CreateTable`; the text is
/// `rendered_create_table` of the table.
#[verifier::external_body]
fn render_create_table(table: &CreateTable) -> (sql: String)
    ensures
        sql@ == rendered_create_table(*table),
{
    table.to_string()
}

/// A copy of a `CREATE TABLE` (its derived `Clone`), equal to it.
#[verifier::external_body]
fn copy_create_table(table: &CreateTable) -> (copy: CreateTable)
    ensures
        copy == *table,
{
    table.clone()
}

/// Extends a `CREATE TABLE`'s column list with clones of the columns of `extra`: the
/// columns become the old ones followed by those of `extra`, and the name stays.
#[verifier::external_body]
fn append_columns(table: &mut CreateTable, extra: &CreateTable)
    ensures
        *final(table) == columns_appended(*old(table), *extra),
        create_table_columns(*final(table)) == create_table_columns(*old(table)) + create_table_columns(*extra),
        create_table_name(*final(table)) == create_table_name(*old(table)),
{
    table.columns.extend(extra.columns.iter().cloned());
}

/// Uppercases text with `str::to_uppercase` (Unicode, independent of locale); the
/// result is `unicode_uppercase` of the text.
#[verifier::external_body]
fn uppercase(s: &str) -> (upper: String)
    ensures
        upper@ == unicode_uppercase(s@),
{
    s.to_uppercase()
}

} // verus!

verus! {

/// The prefix that names a state's version table after its view table.
pub const STATE_VERSIONS_TABLE_PREFIX: &'static str = "chaindexing_state_versions_for_";

/// The columns every state view and state version carries besides the user's own.
pub const DEFAULT_MIGRATION: &'static str = "state_version_group_id UUID NOT NULL,
        contract_address VARCHAR NOT NULL,
        chain_id BIGINT NOT NULL,
        block_hash VARCHAR NOT NULL,
        block_number BIGINT NOT NULL,
        transaction_hash VARCHAR NOT NULL,
        transaction_index INTEGER NOT NULL,
        log_index INTEGER NOT NULL";

/// The event fields every state records.
pub const DEFAULT_FIELDS: [&'static str; 7] = [
    "contract_address",
    "chain_id",
    "block_hash",
    "block_number",
    "transaction_hash",
    "transaction_index",
    "log_index",
];

/// The fields that, added to the user's, make each state version unique.
pub const ESSENTIAL_INDEX_FIELDS: [&'static str; 4] = [
    "chain_id",
    "block_number",
    "transaction_hash",
    "log_index",
];

/// The default event fields, as text.
pub open spec fn default_fields() -> Seq<Seq<char>> {
    DEFAULT_FIELDS@.map_values(|f: &str| f@)
}

/// The essential index fields, as text.
pub open spec fn essential_fields() -> Seq<Seq<char>> {
    ESSENTIAL_INDEX_FIELDS@.map_values(|f: &str| f@)
}

/// The columns, before the default ones, that identify a state version and mark a
/// deletion.
pub const STATE_VERSION_COLUMNS: &'static str = "state_version_id BIGSERIAL PRIMARY KEY,
        state_version_is_deleted BOOL NOT NULL default false,
        ";

/// The same columns on one line, as the column additions list them.
pub const STATE_VERSION_ALTER_COLUMNS: &'static str =
    "state_version_id BIGSERIAL PRIMARY KEY, state_version_is_deleted BOOL NOT NULL default false, ";

/// The columns appended to a user table to make its state-version table.
pub open spec fn remaining_state_versions_migration() -> Seq<char> {
    STATE_VERSION_COLUMNS@ + DEFAULT_MIGRATION@ + ")"@
}

/// The version-table columns that older installations may lack.
pub open spec fn state_versions_alter_columns() -> Seq<char> {
    STATE_VERSION_ALTER_COLUMNS@ + DEFAULT_MIGRATION@
}

/// The `CREATE TABLE` a migration ends with, if it parses and does.
pub open spec fn parsed_create_table(m: Seq<char>) -> Option<CreateTable> {
    match postgres_statements(m) {
        Some(s) => if s.len() > 0 { statement_create_table(s.last()) } else { None },
        None => None,
    }
}

/// The first `CREATE TABLE` among statements.
pub open spec fn first_create_table_in(s: Seq<Statement>) -> Option<CreateTable>
    decreases s.len(),
{
    if s.len() == 0 {
        None
    } else {
        match statement_create_table(s[0]) {
            Some(t) => Some(t),
            None => first_create_table_in(s.drop_first()),
        }
    }
}

/// The first `CREATE TABLE` of a migration, if it parses and has one.
pub open spec fn first_create_table(m: Seq<char>) -> Option<CreateTable> {
    match postgres_statements(m) {
        Some(s) => first_create_table_in(s),
        None => None,
    }
}

/// Whether a column holds JSON: `JSON`, `JSONB`, or a custom type whose name
/// uppercases to `JSONB`.
pub open spec fn is_json_column(c: SqlColumn) -> bool {
    match c.data_type {
        SqlColumnType::Json => true,
        SqlColumnType::Jsonb => true,
        SqlColumnType::Custom(name) => unicode_uppercase(name@) == "JSONB"@,
        SqlColumnType::Other => false,
    }
}

/// The names of the columns that do not hold JSON, in order.
pub open spec fn non_json_column_names(cols: Seq<SqlColumn>) -> Seq<Seq<char>>
    decreases cols.len(),
{
    if cols.len() == 0 {
        Seq::empty()
    } else {
        let rest = non_json_column_names(cols.drop_last());
        if is_json_column(cols.last()) {
            rest
        } else {
            rest.push(cols.last().name@)
        }
    }
}

/// The non-JSON fields of a migration's first `CREATE TABLE` (`None` where there is
/// none to read).
pub open spec fn table_fields(m: Seq<char>) -> Option<Seq<Seq<char>>> {
    match first_create_table(m) {
        Some(t) => Some(non_json_column_names(create_table_columns(t))),
        None => None,
    }
}

/// The throwaway table through which appended column definitions are parsed.
pub open spec fn appended_columns_table(to_append: Seq<char>) -> Seq<char> {
    "CREATE TABLE temp_table ("@ + trim_text(trim_end_char(to_append, ')')) + ")"@
}

/// The parsed table holding the columns to append, if they parse.
pub open spec fn extra_table(to_append: Seq<char>) -> Option<CreateTable> {
    match postgres_statements(appended_columns_table(to_append)) {
        Some(s) => if s.len() > 0 { statement_create_table(s[0]) } else { None },
        None => None,
    }
}

/// The `CREATE TABLE` a migration starts with, if it parses and starts with one.
pub open spec fn starting_create_table(m: Seq<char>) -> Option<CreateTable> {
    match postgres_statements(m) {
        Some(s) => if s.len() > 0 { statement_create_table(s[0]) } else { None },
        None => None,
    }
}

/// A migration with columns appended to the `CREATE TABLE` it starts with (unchanged
/// when it starts with another statement; `None` where it does not parse).
pub open spec fn appended_migration(m: Seq<char>, to_append: Seq<char>) -> Option<Seq<char>> {
    match postgres_statements(m) {
        None => None,
        Some(s) => if s.len() > 0 && statement_create_table(s[0]) is Some {
            Some(rendered_create_table(
                match extra_table(to_append) {
                    Some(e) => columns_appended(statement_create_table(s[0])->0, e),
                    None => statement_create_table(s[0])->0,
                },
            ))
        } else {
            Some(m)
        },
    }
}

} // verus!

verus! {

/// Whether a token's first word is a default field that the migration mentions more
/// than once.
pub open spec fn is_repeating_field(m: Seq<char>, w: Seq<char>) -> bool {
    default_fields().contains(w) && count_matches(m, w) > 1
}

/// Whether an earlier token starts with the word `w`.
pub open spec fn seen_before(tokens: Seq<Seq<char>>, i: int, w: Seq<char>) -> bool {
    exists|j: int| 0 <= j < i && #[trigger] first_word(tokens[j]) == Some(w)
}

/// Whether token `i` stays: it does unless it repeats an earlier token's repeating
/// default field.
pub open spec fn keeps_token(m: Seq<char>, tokens: Seq<Seq<char>>, i: int) -> bool {
    let w = first_word(tokens[i])->0;
    !(is_repeating_field(m, w) && seen_before(tokens, i, w))
}

/// The tokens among the first `n` that stay, in order.
pub open spec fn kept_tokens(m: Seq<char>, tokens: Seq<Seq<char>>, n: int) -> Seq<Seq<char>>
    decreases n,
{
    if n <= 0 {
        Seq::empty()
    } else {
        let r = kept_tokens(m, tokens, n - 1);
        if keeps_token(m, tokens, n - 1) {
            r.push(tokens[n - 1])
        } else {
            r
        }
    }
}

/// The migration's comma-separated tokens with repeated default-field definitions
/// dropped (the first stays); `None` when a token holds no word.
pub open spec fn without_repeating_fields(m: Seq<char>) -> Option<Seq<char>> {
    let tokens = split_text(m, ',');
    if forall|i: int| 0 <= i < tokens.len() ==> (#[trigger] first_word(tokens[i])) is Some {
        Some(join(kept_tokens(m, tokens, tokens.len() as int), ","@))
    } else {
        None
    }
}

fn contains_word(seen: &Vec<Vec<char>>, w: &Vec<char>) -> (found: bool)
    ensures
        found == exists|j: int| 0 <= j < seen@.len() && (#[trigger] seen@[j])@ == w@,
{
    let mut i: usize = 0;
    while i < seen.len()
        invariant
            i <= seen@.len(),
            forall|j: int| 0 <= j < i ==> (#[trigger] seen@[j])@ != w@,
        decreases seen@.len() - i,
    {
        if crate::text::chars_equal(&seen[i], w) {
            return true;
        }
        i = i + 1;
    }
    false
}

/// Drops repeated definitions of default fields from a migration, keeping the first.
pub fn remove_repeating_occurrences(migration: &str) -> (out: Option<String>)
    ensures
        match out {
            Some(s) => without_repeating_fields(migration@) == Some(s@),
            None => without_repeating_fields(migration@) is None,
        },
{
    let ghost m = migration@;
    let mut repeating: Vec<bool> = Vec::new();
    let mut k: usize = 0;
    while k < DEFAULT_FIELDS.len()
        invariant
            m == migration@,
            k <= 7,
            repeating@.len() == k,
            forall|q: int| 0 <= q < k ==> repeating@[q] == (count_matches(m, default_fields()[q]) > 1),
        decreases 7 - k,
    {
        let field: &str = DEFAULT_FIELDS[k];
        proof {
            reveal_strlit("contract_address");
            reveal_strlit("chain_id");
            reveal_strlit("block_hash");
            reveal_strlit("block_number");
            reveal_strlit("transaction_hash");
            reveal_strlit("transaction_index");
            reveal_strlit("log_index");
        }
        assert(field@ == default_fields()[k as int]);
        repeating.push(str_count_matches(migration, field) > 1);
        k = k + 1;
    }
    let chars = chars_of(migration);
    let tokens = split_chars(&chars, ',');
    let ghost ts = split_text(m, ',');
    assert(tokens@.len() == ts.len());
    let mut seen: Vec<Vec<char>> = Vec::new();
    let mut kept: Vec<String> = Vec::new();
    let mut i: usize = 0;
    while i < tokens.len()
        invariant
            i <= tokens@.len() == ts.len(),
            m == migration@,
            chars@ == m,
            ts == split_text(m, ','),
            forall|q: int| 0 <= q < tokens@.len() ==> (#[trigger] tokens@[q])@ == ts[q],
            repeating@.len() == 7,
            forall|q: int| 0 <= q < 7 ==> repeating@[q] == (count_matches(m, default_fields()[q]) > 1),
            forall|q: int| 0 <= q < i ==> (#[trigger] first_word(ts[q])) is Some,
            forall|w: Seq<char>|
                is_repeating_field(m, w) ==> ((exists|j: int| 0 <= j < seen@.len() && (#[trigger] seen@[j])@ == w)
                    <==> seen_before(ts, i as int, w)),
            string_views(kept@) == kept_tokens(m, ts, i as int),
        decreases tokens@.len() - i,
    {
        let word = match first_word_of(&tokens[i]) {
            Some(w) => w,
            None => {
                assert(first_word(ts[i as int]) is None);
                assert(!(forall|q: int| 0 <= q < ts.len() ==> (#[trigger] first_word(ts[q])) is Some));
                return None;
            },
        };
        assert(first_word(ts[i as int]) == Some(word@));
        // Is the word a repeating default field?
        let mut rep = false;
        let mut q: usize = 0;
        while q < DEFAULT_FIELDS.len()
            invariant
                q <= 7,
                repeating@.len() == 7,
                rep == exists|r: int| 0 <= r < q && default_fields()[r] == word@ && repeating@[r],
            decreases 7 - q,
        {
            let field: &str = DEFAULT_FIELDS[q];
            assert(field@ == default_fields()[q as int]);
            if crate::text::chars_equal(&chars_of(field), &word) && repeating[q] {
                rep = true;
            }
            q = q + 1;
        }
        proof {
            if is_repeating_field(m, word@) {
                let r = choose|r: int| 0 <= r < default_fields().len() && default_fields()[r] == word@;
                assert(repeating@[r]);
            }
            if rep {
                let r = choose|r: int| 0 <= r < 7 && default_fields()[r] == word@ && repeating@[r];
                assert(default_fields().contains(word@));
            }
            assert(rep == is_repeating_field(m, word@));
        }
        let ghost old_seen = seen@;
        let ghost old_kept = kept@;
        let already = rep && contains_word(&seen, &word);
        let keep = !already;
        assert(keep == keeps_token(m, ts, i as int));
        if rep && !already {
            seen.push(word);
        }
        if keep {
            kept.push(string_of(&tokens[i]));
        }
        proof {
            assert(string_views(kept@) == kept_tokens(m, ts, i + 1));
            assert forall|w: Seq<char>|
                is_repeating_field(m, w) implies ((exists|j: int| 0 <= j < seen@.len() && (#[trigger] seen@[j])@ == w)
                    <==> seen_before(ts, i + 1, w)) by {
                if seen_before(ts, i + 1, w) && !seen_before(ts, i as int, w) {
                    assert(first_word(ts[i as int]) == Some(w));
                    assert(seen@[seen@.len() - 1]@ == w);
                }
                if seen_before(ts, i as int, w) {
                    let j = choose|j: int| 0 <= j < i && #[trigger] first_word(ts[j]) == Some(w);
                    assert(0 <= j < i + 1 && first_word(ts[j]) == Some(w));
                    let j2 = choose|j2: int| 0 <= j2 < old_seen.len() && (#[trigger] old_seen[j2])@ == w;
                    assert(seen@[j2] == old_seen[j2]);
                }
                if exists|j: int| 0 <= j < seen@.len() && (#[trigger] seen@[j])@ == w {
                    let j = choose|j: int| 0 <= j < seen@.len() && (#[trigger] seen@[j])@ == w;
                    if j < old_seen.len() {
                        assert(old_seen[j]@ == w);
                        let j3 = choose|j3: int| 0 <= j3 < i && #[trigger] first_word(ts[j3]) == Some(w);
                        assert(0 <= j3 < i + 1 && first_word(ts[j3]) == Some(w));
                    } else {
                        assert(first_word(ts[i as int]) == Some(w));
                    }
                }
            }
        }
        i = i + 1;
    }
    Some(joined(&kept, ","))
}

} // verus!

verus! {

/// The pieces of a migration's column list: the text after its last `(` up to the
/// next `)`, split at commas.
pub open spec fn migration_columns(v: Seq<char>) -> Seq<Seq<char>> {
    let after_open = split_text(v, '(').last();
    let inner = split_text(after_open, ')')[0];
    split_text(inner, ',')
}

/// The column pieces that declare a primary key.
pub open spec fn primary_key_columns(cols: Seq<Seq<char>>) -> Seq<Seq<char>>
    decreases cols.len(),
{
    if cols.len() == 0 {
        Seq::empty()
    } else {
        let rest = primary_key_columns(cols.drop_last());
        if contains_text(cols.last(), "PRIMARY KEY"@) {
            rest.push(cols.last())
        } else {
            rest
        }
    }
}

/// A state-version migration with the user's own primary key demoted to a plain
/// column when it competes with `state_version_id`; `None` where neither of two
/// primary-key columns is the user's.
pub open spec fn normalized_primary_key(v: Seq<char>) -> Option<Seq<char>> {
    let pk = primary_key_columns(migration_columns(v));
    if pk.len() == 2 {
        let user = if !contains_text(pk[0], "state_version_id"@) {
            Some(pk[0])
        } else if !contains_text(pk[1], "state_version_id"@) {
            Some(pk[1])
        } else {
            None
        };
        match user {
            Some(u) => Some(replace_text(v, u + ","@, replace_text(u, "PRIMARY KEY"@, Seq::empty()) + ","@)),
            None => None,
        }
    } else {
        Some(v)
    }
}

/// A migration whose `CREATE TABLE IF NOT EXISTS ` names the state-version table.
pub open spec fn versions_named(m: Seq<char>) -> Seq<char> {
    replace_text(
        m,
        "CREATE TABLE IF NOT EXISTS "@,
        "CREATE TABLE IF NOT EXISTS "@ + STATE_VERSIONS_TABLE_PREFIX@,
    )
}

/// A column definition cut from a comma-separated list.
pub open spec fn alter_column_def(tok: Seq<char>) -> Seq<char> {
    trim_text(trim_end_char(trim_start_char(trim_text(tok), '('), ')'))
}

/// The statement adding a column to a table unless it is there.
pub open spec fn alter_statement(table: Seq<char>, def: Seq<char>) -> Seq<char> {
    "ALTER TABLE IF EXISTS "@ + table + " ADD COLUMN IF NOT EXISTS "@ + def
}

/// One `ALTER TABLE` per non-empty column definition, in order.
pub open spec fn alter_statements_from(table: Seq<char>, toks: Seq<Seq<char>>) -> Seq<Seq<char>>
    decreases toks.len(),
{
    if toks.len() == 0 {
        Seq::empty()
    } else {
        let r = alter_statements_from(table, toks.drop_last());
        let d = alter_column_def(toks.last());
        if d.len() == 0 {
            r
        } else {
            r.push(alter_statement(table, d))
        }
    }
}

/// The statements that add each column of a comma-separated list to a table.
pub open spec fn alter_table_migrations(table: Seq<char>, columns_sql: Seq<char>) -> Seq<Seq<char>> {
    alter_statements_from(table, split_text(columns_sql, ','))
}

/// The fields other than `state_version_id`.
pub open spec fn without_state_version_id(fields: Seq<Seq<char>>) -> Seq<Seq<char>>
    decreases fields.len(),
{
    if fields.len() == 0 {
        Seq::empty()
    } else {
        let rest = without_state_version_id(fields.drop_last());
        if fields.last() == "state_version_id"@ {
            rest
        } else {
            rest.push(fields.last())
        }
    }
}

/// The unique index over a state-version table's fields (without `state_version_id`).
pub open spec fn unique_index_migration(table: Seq<char>, fields: Seq<Seq<char>>) -> Seq<char> {
    "CREATE UNIQUE INDEX IF NOT EXISTS unique_"@ + table + " ON "@ + table + "("@ + join(
        without_state_version_id(fields),
        ","@,
    ) + ")"@
}

/// The statement dropping a state-version table's unique index.
pub open spec fn drop_unique_index_migration(table: Seq<char>) -> Seq<char> {
    "DROP INDEX IF EXISTS unique_"@ + table
}

/// `cur` followed by each field of `es` that is not already present, in order.
pub open spec fn with_missing(cur: Seq<Seq<char>>, es: Seq<Seq<char>>) -> Seq<Seq<char>>
    decreases es.len(),
{
    if es.len() == 0 {
        cur
    } else {
        with_missing(if cur.contains(es[0]) { cur } else { cur.push(es[0]) }, es.drop_first())
    }
}

/// The fields of the state-version unique index: the user's fields plus the
/// essential ones (only the user's when the version table shows no fields), and the
/// default fields when that leaves none.
pub open spec fn index_fields(user: Seq<Seq<char>>, versions: Seq<Seq<char>>) -> Seq<Seq<char>> {
    let f = if versions.len() == 0 { user } else { with_missing(user, essential_fields()) };
    if f.len() == 0 {
        default_fields()
    } else {
        f
    }
}

/// The name of a state-version table: that of the `CREATE TABLE` its migration ends
/// with, else of its first one (`None` where it has none or does not parse).
pub open spec fn versions_table_name(v: Seq<char>) -> Option<Seq<char>> {
    match parsed_create_table(v) {
        Some(t) => Some(create_table_name(t)),
        None => match first_create_table(v) {
            Some(t) => Some(create_table_name(t)),
            None => None,
        },
    }
}

/// The migrations that one user migration expands to: for a migration ending with a
/// `CREATE TABLE`, the state-view table, the state-version table, the column
/// additions for older installations of both, and the state-version unique index
/// (dropped and created again); any other migration as it is. `None` where one of
/// the steps has nothing to work on.
pub open spec fn expanded_migration(m: Seq<char>) -> Option<Seq<Seq<char>>> {
    match parsed_create_table(m) {
        None => Some(seq![m]),
        Some(ct) => match (
            appended_migration(m, DEFAULT_MIGRATION@),
            appended_migration(m, remaining_state_versions_migration()),
        ) {
            (Some(views0), Some(versions0)) => match (
                without_repeating_fields(views0),
                without_repeating_fields(versions_named(versions0)),
            ) {
                (Some(views), Some(versions)) => match (
                    versions_table_name(versions),
                    table_fields(m),
                    table_fields(versions),
                    normalized_primary_key(versions),
                ) {
                    (Some(vt), Some(uf), Some(vf), Some(versions_final)) => Some(
                        seq![views, versions_final] + alter_table_migrations(
                            create_table_name(ct),
                            DEFAULT_MIGRATION@,
                        ) + alter_table_migrations(vt, state_versions_alter_columns()) + seq![
                            drop_unique_index_migration(vt),
                            unique_index_migration(vt, index_fields(uf, vf)),
                        ],
                    ),
                    _ => None,
                },
                _ => None,
            },
            _ => None,
        },
    }
}

/// The expansions of all user migrations, concatenated in order (`None` where one
/// has none).
pub open spec fn expanded_migrations(ms: Seq<Seq<char>>) -> Option<Seq<Seq<char>>>
    decreases ms.len(),
{
    if ms.len() == 0 {
        Some(Seq::empty())
    } else {
        match (expanded_migrations(ms.drop_last()), expanded_migration(ms.last())) {
            (Some(a), Some(b)) => Some(a + b),
            _ => None,
        }
    }
}

/// The names of the tables that the migrations ending with a `CREATE TABLE` create.
pub open spec fn created_table_names(ms: Seq<Seq<char>>) -> Seq<Seq<char>>
    decreases ms.len(),
{
    if ms.len() == 0 {
        Seq::empty()
    } else {
        let rest = created_table_names(ms.drop_last());
        match parsed_create_table(ms.last()) {
            Some(t) => rest.push(create_table_name(t)),
            None => rest,
        }
    }
}

/// A `DROP TABLE IF EXISTS` for each migration ending with a `CREATE TABLE`.
pub open spec fn drop_table_migrations(ms: Seq<Seq<char>>) -> Seq<Seq<char>> {
    created_table_names(ms).map_values(|name: Seq<char>| "DROP TABLE IF EXISTS "@ + name)
}

} // verus!

verus! {

/// The name of a table, when there is one.
pub open spec fn name_of(t: Option<CreateTable>) -> Option<Seq<char>> {
    match t {
        Some(t) => Some(create_table_name(t)),
        None => None,
    }
}

/// The text of an optional string.
pub open spec fn opt_text(s: Option<String>) -> Option<Seq<char>> {
    match s {
        Some(s) => Some(s@),
        None => None,
    }
}

/// The texts of an optional list of strings.
pub open spec fn opt_texts(v: Option<Vec<String>>) -> Option<Seq<Seq<char>>> {
    match v {
        Some(v) => Some(string_views(v@)),
        None => None,
    }
}

/// The name of the table created by the `CREATE TABLE` a migration ends with.
pub fn last_create_table_name(m: &str) -> (name: Option<String>)
    ensures
        opt_text(name) == name_of(parsed_create_table(m@)),
{
    match parse_postgres_sql(m) {
        None => None,
        Some(statements) => {
            if statements.len() == 0 {
                None
            } else {
                match create_table_of(&statements[statements.len() - 1]) {
                    Some(t) => Some(table_name_of(t)),
                    None => None,
                }
            }
        },
    }
}

proof fn lemma_first_create_table_skip(s: Seq<Statement>, i: int)
    requires
        0 <= i < s.len(),
        statement_create_table(s[i]) is None,
    ensures
        first_create_table_in(s.skip(i)) == first_create_table_in(s.skip(i + 1)),
{
    assert(s.skip(i)[0] == s[i]);
    assert(s.skip(i).drop_first() =~= s.skip(i + 1));
}

/// The index of the first `CREATE TABLE` among statements, if any.
fn first_create_table_index(statements: &Vec<Statement>) -> (index: Option<usize>)
    ensures
        match index {
            Some(i) => i < statements@.len() && statement_create_table(statements@[i as int]) is Some
                && first_create_table_in(statements@) == statement_create_table(statements@[i as int]),
            None => first_create_table_in(statements@) is None,
        },
{
    let mut i: usize = 0;
    assert(statements@.skip(0) =~= statements@);
    while i < statements.len()
        invariant
            i <= statements@.len(),
            first_create_table_in(statements@) == first_create_table_in(statements@.skip(i as int)),
        decreases statements@.len() - i,
    {
        match create_table_of(&statements[i]) {
            Some(_) => {
                assert(statements@.skip(i as int)[0] == statements@[i as int]);
                return Some(i);
            },
            None => {
                proof {
                    lemma_first_create_table_skip(statements@, i as int);
                }
            },
        }
        i = i + 1;
    }
    assert(statements@.skip(i as int).len() == 0);
    None
}

/// The name of the first table a migration creates.
pub fn first_create_table_name(m: &str) -> (name: Option<String>)
    ensures
        opt_text(name) == name_of(first_create_table(m@)),
{
    match parse_postgres_sql(m) {
        None => None,
        Some(statements) => match first_create_table_index(&statements) {
            None => None,
            Some(i) => match create_table_of(&statements[i]) {
                Some(t) => Some(table_name_of(t)),
                None => None,
            },
        },
    }
}

/// Whether a column holds JSON.
pub fn is_json_column_of(c: &SqlColumn) -> (json: bool)
    ensures
        json == is_json_column(*c),
{
    match &c.data_type {
        SqlColumnType::Json => true,
        SqlColumnType::Jsonb => true,
        SqlColumnType::Custom(name) => {
            let upper = uppercase(name.as_str());
            proof {
                reveal_strlit("JSONB");
            }
            crate::text::str_equals(upper.as_str(), "JSONB")
        },
        SqlColumnType::Other => false,
    }
}

/// The names of the columns that do not hold JSON.
pub fn non_json_names(columns: &Vec<SqlColumn>) -> (names: Vec<String>)
    ensures
        string_views(names@) == non_json_column_names(columns@),
{
    let mut names: Vec<String> = Vec::new();
    let mut i: usize = 0;
    while i < columns.len()
        invariant
            i <= columns@.len(),
            string_views(names@) == non_json_column_names(columns@.take(i as int)),
        decreases columns@.len() - i,
    {
        proof {
            assert(columns@.take(i + 1).drop_last() =~= columns@.take(i as int));
            assert(columns@.take(i + 1).last() == columns@[i as int]);
        }
        if !is_json_column_of(&columns[i]) {
            names.push(columns[i].name.clone());
        }
        i = i + 1;
    }
    assert(columns@.take(columns@.len() as int) =~= columns@);
    names
}

/// The non-JSON fields of the first table a migration creates.
pub fn table_fields_of(m: &str) -> (fields: Option<Vec<String>>)
    ensures
        opt_texts(fields) == table_fields(m@),
{
    match parse_postgres_sql(m) {
        None => None,
        Some(statements) => match first_create_table_index(&statements) {
            None => None,
            Some(i) => match create_table_of(&statements[i]) {
                Some(t) => Some(non_json_names(&columns_of(t))),
                None => None,
            },
        },
    }
}

/// The migration with the columns of `to_append` appended to the `CREATE TABLE` it
/// starts with.
pub fn append_migration(m: &str, to_append: &str) -> (out: Option<String>)
    ensures
        opt_text(out) == appended_migration(m@, to_append@),
        starting_create_table(m@) matches Some(t) ==> (extra_table(to_append@) matches Some(e) ==> exists|u: CreateTable|
            opt_text(out) == Some(rendered_create_table(u)) && create_table_columns(u) == create_table_columns(t)
                + create_table_columns(e) && create_table_name(u) == create_table_name(t)),
{
    match parse_postgres_sql(m) {
        None => None,
        Some(statements) => {
            if statements.len() == 0 {
                return Some(crate::text::to_owned_string(m));
            }
            match create_table_of(&statements[0]) {
                None => Some(crate::text::to_owned_string(m)),
                Some(table) => {
                    let columns = trim_chars(&trim_end_char_of(&chars_of(to_append), ')'));
                    let mut temp = String::new();
                    push_str(&mut temp, "CREATE TABLE temp_table (");
                    push_str(&mut temp, string_of(&columns).as_str());
                    push_str(&mut temp, ")");
                    assert(temp@ == appended_columns_table(to_append@));
                    let mut appended = copy_create_table(table);
                    match parse_postgres_sql(temp.as_str()) {
                        Some(temp_statements) => {
                            if temp_statements.len() > 0 {
                                match create_table_of(&temp_statements[0]) {
                                    Some(extra) => {
                                        append_columns(&mut appended, extra);
                                        assert(create_table_columns(appended) == create_table_columns(*table)
                                            + create_table_columns(*extra));
                                    },
                                    None => {},
                                }
                            }
                        },
                        None => {},
                    }
                    Some(render_create_table(&appended))
                },
            }
        },
    }
}

} // verus!

verus! {

/// The views of a list of character vectors.
pub open spec fn char_vec_views(v: Seq<Vec<char>>) -> Seq<Seq<char>> {
    v.map_values(|x: Vec<char>| x@)
}

/// The column pieces that declare a primary key.
fn primary_key_columns_of(cols: &Vec<Vec<char>>) -> (pk: Vec<Vec<char>>)
    ensures
        char_vec_views(pk@) == primary_key_columns(char_vec_views(cols@)),
{
    let marker = chars_of("PRIMARY KEY");
    let mut pk: Vec<Vec<char>> = Vec::new();
    let mut i: usize = 0;
    while i < cols.len()
        invariant
            i <= cols@.len(),
            marker@ == "PRIMARY KEY"@,
            char_vec_views(pk@) == primary_key_columns(char_vec_views(cols@).take(i as int)),
        decreases cols@.len() - i,
    {
        proof {
            assert(char_vec_views(cols@).take(i + 1).drop_last() =~= char_vec_views(cols@).take(i as int));
            assert(char_vec_views(cols@).take(i + 1).last() == cols@[i as int]@);
        }
        if crate::char_seq::contains_chars(&cols[i], &marker) {
            pk.push(sub_all(&cols[i]));
            assert(char_vec_views(pk@) == primary_key_columns(char_vec_views(cols@).take(i + 1)));
        }
        i = i + 1;
    }
    assert(char_vec_views(cols@).take(cols@.len() as int) =~= char_vec_views(cols@));
    pk
}

fn sub_all(v: &Vec<char>) -> (copy: Vec<char>)
    ensures
        copy@ == v@,
{
    let copy = crate::char_seq::sub_chars(v, 0, v.len());
    assert(v@.subrange(0, v@.len() as int) =~= v@);
    copy
}

/// Demotes the user's primary key to a plain column when a state-version migration
/// declares two primary keys.
pub fn normalize_primary_key(v: &str) -> (out: Option<String>)
    ensures
        opt_text(out) == normalized_primary_key(v@),
{
    let chars = chars_of(v);
    let opened = split_chars(&chars, '(');
    proof {
        crate::char_seq::lemma_split_nonempty(v@, '(');
    }
    assert(opened@.len() == split_text(v@, '(').len());
    let after_open = &opened[opened.len() - 1];
    assert(after_open@ == split_text(v@, '(').last());
    let closed = split_chars(after_open, ')');
    proof {
        crate::char_seq::lemma_split_nonempty(after_open@, ')');
    }
    assert(closed@.len() == split_text(after_open@, ')').len());
    let inner = &closed[0];
    assert(inner@ == split_text(after_open@, ')')[0]);
    let cols = split_chars(inner, ',');
    let pk = primary_key_columns_of(&cols);
    assert(char_vec_views(cols@) == migration_columns(v@));
    if pk.len() != 2 {
        return Some(crate::text::to_owned_string(v));
    }
    let svid = chars_of("state_version_id");
    let user: &Vec<char> = if !crate::char_seq::contains_chars(&pk[0], &svid) {
        &pk[0]
    } else if !crate::char_seq::contains_chars(&pk[1], &svid) {
        &pk[1]
    } else {
        return None;
    };
    let mut with_comma = sub_all(user);
    with_comma.push(',');
    let nothing: Vec<char> = Vec::new();
    proof {
        reveal_strlit("PRIMARY KEY");
    }
    let mut replacement = crate::char_seq::replace_chars(user, &chars_of("PRIMARY KEY"), &nothing);
    replacement.push(',');
    proof {
        assert(Seq::<char>::empty() =~= nothing@);
        reveal_strlit("PRIMARY KEY");
    }
    assert(with_comma@ == user@ + ","@) by {
        reveal_strlit(",");
        assert(with_comma@ =~= user@ + ","@);
    }
    assert(replacement@ == replace_text(user@, "PRIMARY KEY"@, Seq::empty()) + ","@) by {
        reveal_strlit(",");
    }
    let replaced = crate::char_seq::replace_chars(&chars, &with_comma, &replacement);
    Some(string_of(&replaced))
}

/// The `ALTER TABLE` statements adding each listed column to a table.
pub fn alter_table_migrations_of(table: &str, columns_sql: &str) -> (migrations: Vec<String>)
    ensures
        string_views(migrations@) == alter_table_migrations(table@, columns_sql@),
{
    let toks = split_chars(&chars_of(columns_sql), ',');
    let ghost ts = split_text(columns_sql@, ',');
    assert(char_vec_views(toks@) == ts);
    let mut migrations: Vec<String> = Vec::new();
    let mut i: usize = 0;
    while i < toks.len()
        invariant
            i <= toks@.len(),
            char_vec_views(toks@) == ts,
            string_views(migrations@) == alter_statements_from(table@, ts.take(i as int)),
        decreases toks@.len() - i,
    {
        proof {
            assert(ts.take(i + 1).drop_last() =~= ts.take(i as int));
            assert(ts.take(i + 1).last() == toks@[i as int]@);
        }
        let def = trim_chars(&trim_end_char_of(&trim_start_char_of(&trim_chars(&toks[i]), '('), ')'));
        if def.len() > 0 {
            let mut stmt = String::new();
            push_str(&mut stmt, "ALTER TABLE IF EXISTS ");
            push_str(&mut stmt, table);
            push_str(&mut stmt, " ADD COLUMN IF NOT EXISTS ");
            push_str(&mut stmt, string_of(&def).as_str());
            migrations.push(stmt);
        }
        assert(string_views(migrations@) == alter_statements_from(table@, ts.take(i + 1)));
        i = i + 1;
    }
    assert(ts.take(ts.len() as int) =~= ts);
    migrations
}

/// The unique index over a state-version table's fields.
pub fn unique_index_migration_of(table: &str, fields: &Vec<String>) -> (migration: String)
    ensures
        migration@ == unique_index_migration(table@, string_views(fields@)),
{
    let mut kept: Vec<String> = Vec::new();
    let mut i: usize = 0;
    while i < fields.len()
        invariant
            i <= fields@.len(),
            string_views(kept@) == without_state_version_id(string_views(fields@).take(i as int)),
        decreases fields@.len() - i,
    {
        proof {
            assert(string_views(fields@).take(i + 1).drop_last() =~= string_views(fields@).take(i as int));
            assert(string_views(fields@).take(i + 1).last() == fields@[i as int]@);
        }
        if !crate::text::str_equals(fields[i].as_str(), "state_version_id") {
            kept.push(fields[i].clone());
        }
        i = i + 1;
    }
    assert(string_views(fields@).take(fields@.len() as int) =~= string_views(fields@));
    let mut migration = String::new();
    push_str(&mut migration, "CREATE UNIQUE INDEX IF NOT EXISTS unique_");
    push_str(&mut migration, table);
    push_str(&mut migration, " ON ");
    push_str(&mut migration, table);
    push_str(&mut migration, "(");
    crate::text::push_joined(&mut migration, &kept, ",");
    push_str(&mut migration, ")");
    migration
}

/// The default event fields as owned strings.
fn default_field_strings() -> (fields: Vec<String>)
    ensures
        string_views(fields@) == default_fields(),
{
    let mut fields: Vec<String> = Vec::new();
    let mut i: usize = 0;
    while i < DEFAULT_FIELDS.len()
        invariant
            i <= 7,
            string_views(fields@) == default_fields().take(i as int),
        decreases 7 - i,
    {
        fields.push(crate::text::to_owned_string(DEFAULT_FIELDS[i]));
        assert(default_fields().take(i + 1) =~= default_fields().take(i as int).push(DEFAULT_FIELDS@[i as int]@));
        i = i + 1;
    }
    assert(default_fields().take(7) =~= default_fields());
    fields
}

/// Whether a list of strings holds the text `s`.
fn holds_text(v: &Vec<String>, s: &str) -> (found: bool)
    ensures
        found == string_views(v@).contains(s@),
{
    let mut i: usize = 0;
    while i < v.len()
        invariant
            i <= v@.len(),
            forall|j: int| 0 <= j < i ==> v@[j]@ != s@,
        decreases v@.len() - i,
    {
        if crate::text::str_equals(v[i].as_str(), s) {
            assert(string_views(v@)[i as int] == s@);
            return true;
        }
        i = i + 1;
    }
    false
}

/// The fields of the state-version unique index.
pub fn index_fields_of(user: &Vec<String>, versions: &Vec<String>) -> (fields: Vec<String>)
    ensures
        string_views(fields@) == index_fields(string_views(user@), string_views(versions@)),
{
    let mut fields: Vec<String> = Vec::new();
    let mut i: usize = 0;
    while i < user.len()
        invariant
            i <= user@.len(),
            string_views(fields@) == string_views(user@).take(i as int),
        decreases user@.len() - i,
    {
        fields.push(user[i].clone());
        assert(string_views(user@).take(i + 1) =~= string_views(user@).take(i as int).push(user@[i as int]@));
        i = i + 1;
    }
    assert(string_views(user@).take(user@.len() as int) =~= string_views(user@));
    if versions.len() > 0 {
        let mut k: usize = 0;
        assert(essential_fields().skip(0) =~= essential_fields());
        while k < ESSENTIAL_INDEX_FIELDS.len()
            invariant
                k <= 4,
                with_missing(string_views(fields@), essential_fields().skip(k as int)) == with_missing(
                    string_views(user@),
                    essential_fields(),
                ),
            decreases 4 - k,
        {
            let e: &str = ESSENTIAL_INDEX_FIELDS[k];
            let ghost es = essential_fields().skip(k as int);
            assert(es[0] == e@);
            assert(es.drop_first() =~= essential_fields().skip(k + 1));
            let ghost before = fields@;
            if !holds_text(&fields, e) {
                fields.push(crate::text::to_owned_string(e));
                assert(string_views(fields@) =~= string_views(before).push(e@));
            }
            k = k + 1;
        }
        assert(essential_fields().skip(4).len() == 0);
    }
    if fields.len() == 0 {
        default_field_strings()
    } else {
        fields
    }
}

} // verus!

verus! {

/// The migrations one user migration expands to (see [`expanded_migration`]).
pub fn expand_migration(m: &str) -> (out: Option<Vec<String>>)
    ensures
        opt_texts(out) == expanded_migration(m@),
{
    let views_table = match last_create_table_name(m) {
        None => {
            let mut only: Vec<String> = Vec::new();
            only.push(crate::text::to_owned_string(m));
            assert(string_views(only@) =~= seq![m@]);
            return Some(only);
        },
        Some(name) => name,
    };
    let views0 = match append_migration(m, DEFAULT_MIGRATION) {
        Some(v) => v,
        None => return None,
    };
    let mut remaining = String::new();
    push_str(&mut remaining, STATE_VERSION_COLUMNS);
    push_str(&mut remaining, DEFAULT_MIGRATION);
    push_str(&mut remaining, ")");
    let versions0 = match append_migration(m, remaining.as_str()) {
        Some(v) => v,
        None => return None,
    };
    let views = match remove_repeating_occurrences(views0.as_str()) {
        Some(v) => v,
        None => return None,
    };
    let mut prefixed = String::new();
    push_str(&mut prefixed, "CREATE TABLE IF NOT EXISTS ");
    push_str(&mut prefixed, STATE_VERSIONS_TABLE_PREFIX);
    proof {
        reveal_strlit("CREATE TABLE IF NOT EXISTS ");
    }
    let versions1 = str_replace(versions0.as_str(), "CREATE TABLE IF NOT EXISTS ", prefixed.as_str());
    assert(versions1@ == versions_named(versions0@));
    let versions = match remove_repeating_occurrences(versions1.as_str()) {
        Some(v) => v,
        None => return None,
    };
    let versions_table = match last_create_table_name(versions.as_str()) {
        Some(n) => n,
        None => match first_create_table_name(versions.as_str()) {
            Some(n) => n,
            None => return None,
        },
    };
    assert(Some(versions_table@) == versions_table_name(versions@));
    let user_fields = match table_fields_of(m) {
        Some(f) => f,
        None => return None,
    };
    let versions_fields = match table_fields_of(versions.as_str()) {
        Some(f) => f,
        None => return None,
    };
    let versions_final = match normalize_primary_key(versions.as_str()) {
        Some(v) => v,
        None => return None,
    };
    let mut out: Vec<String> = Vec::new();
    out.push(views);
    out.push(versions_final);
    let views_alters = alter_table_migrations_of(views_table.as_str(), DEFAULT_MIGRATION);
    let mut alter_columns = String::new();
    push_str(&mut alter_columns, STATE_VERSION_ALTER_COLUMNS);
    push_str(&mut alter_columns, DEFAULT_MIGRATION);
    let versions_alters = alter_table_migrations_of(versions_table.as_str(), alter_columns.as_str());
    let ghost head = string_views(out@);
    append_strings(&mut out, &views_alters);
    append_strings(&mut out, &versions_alters);
    let mut drop_index = String::new();
    push_str(&mut drop_index, "DROP INDEX IF EXISTS unique_");
    push_str(&mut drop_index, versions_table.as_str());
    out.push(drop_index);
    let fields = index_fields_of(&user_fields, &versions_fields);
    out.push(unique_index_migration_of(versions_table.as_str(), &fields));
    assert(string_views(out@) =~= head + string_views(views_alters@) + string_views(versions_alters@)
        + seq![
        drop_unique_index_migration(versions_table@),
        unique_index_migration(versions_table@, index_fields(string_views(user_fields@), string_views(versions_fields@))),
    ]);
    Some(out)
}

/// Appends copies of `more` to `out`.
fn append_strings(out: &mut Vec<String>, more: &Vec<String>)
    ensures
        string_views(final(out)@) == string_views(old(out)@) + string_views(more@),
{
    let ghost start = string_views(out@);
    let mut i: usize = 0;
    while i < more.len()
        invariant
            i <= more@.len(),
            string_views(out@) == start + string_views(more@).take(i as int),
        decreases more@.len() - i,
    {
        let ghost before = out@;
        out.push(more[i].clone());
        assert(string_views(out@) =~= string_views(before).push(more@[i as int]@));
        assert(string_views(more@).take(i + 1) =~= string_views(more@).take(i as int).push(more@[i as int]@));
        assert(string_views(out@) =~= start + string_views(more@).take(i + 1));
        i = i + 1;
    }
    assert(string_views(more@).take(more@.len() as int) =~= string_views(more@));
}

/// The texts of a slice of string slices.
pub open spec fn str_views(ms: Seq<&str>) -> Seq<Seq<char>> {
    ms.map_values(|m: &str| m@)
}

/// The migrations all user migrations expand to, in order (see [`expanded_migrations`]).
pub fn expand_migrations(migrations: &[&str]) -> (out: Option<Vec<String>>)
    ensures
        opt_texts(out) == expanded_migrations(str_views(migrations@)),
{
    let mut out: Vec<String> = Vec::new();
    let mut i: usize = 0;
    while i < migrations.len()
        invariant
            i <= migrations@.len(),
            expanded_migrations(str_views(migrations@).take(i as int)) == Some(string_views(out@)),
        decreases migrations@.len() - i,
    {
        proof {
            assert(str_views(migrations@).take(i + 1).drop_last() =~= str_views(migrations@).take(i as int));
            assert(str_views(migrations@).take(i + 1).last() == migrations@[i as int]@);
        }
        match expand_migration(migrations[i]) {
            Some(more) => {
                append_strings(&mut out, &more);
            },
            None => {
                assert(expanded_migrations(str_views(migrations@).take(i + 1)) is None);
                proof {
                    lemma_expanded_none_extends(str_views(migrations@), i + 1);
                }
                return None;
            },
        }
        i = i + 1;
    }
    assert(str_views(migrations@).take(migrations@.len() as int) =~= str_views(migrations@));
    Some(out)
}

proof fn lemma_expanded_none_extends(ms: Seq<Seq<char>>, n: int)
    requires
        0 <= n <= ms.len(),
        expanded_migrations(ms.take(n)) is None,
    ensures
        expanded_migrations(ms) is None,
    decreases ms.len() - n,
{
    if n < ms.len() {
        assert(ms.take(n + 1).drop_last() =~= ms.take(n));
        lemma_expanded_none_extends(ms, n + 1);
    } else {
        assert(ms.take(n) =~= ms);
    }
}

/// The names of the tables the migrations ending with a `CREATE TABLE` create.
pub fn table_names_of(migrations: &[&str]) -> (names: Vec<String>)
    ensures
        string_views(names@) == created_table_names(str_views(migrations@)),
{
    let mut names: Vec<String> = Vec::new();
    let mut i: usize = 0;
    while i < migrations.len()
        invariant
            i <= migrations@.len(),
            string_views(names@) == created_table_names(str_views(migrations@).take(i as int)),
        decreases migrations@.len() - i,
    {
        proof {
            assert(str_views(migrations@).take(i + 1).drop_last() =~= str_views(migrations@).take(i as int));
            assert(str_views(migrations@).take(i + 1).last() == migrations@[i as int]@);
        }
        match last_create_table_name(migrations[i]) {
            Some(name) => {
                names.push(name);
            },
            None => {},
        }
        i = i + 1;
    }
    assert(str_views(migrations@).take(migrations@.len() as int) =~= str_views(migrations@));
    names
}

/// A `DROP TABLE IF EXISTS` for each table the given migrations create.
pub fn drop_tables_of(migrations: &Vec<String>) -> (drops: Vec<String>)
    ensures
        string_views(drops@) == drop_table_migrations(string_views(migrations@)),
{
    let mut drops: Vec<String> = Vec::new();
    let mut i: usize = 0;
    while i < migrations.len()
        invariant
            i <= migrations@.len(),
            string_views(drops@) == drop_table_migrations(string_views(migrations@).take(i as int)),
        decreases migrations@.len() - i,
    {
        let ghost prefix = string_views(migrations@).take(i as int);
        proof {
            assert(string_views(migrations@).take(i + 1).drop_last() =~= prefix);
            assert(string_views(migrations@).take(i + 1).last() == migrations@[i as int]@);
        }
        let ghost before = drops@;
        let ghost names_before = created_table_names(prefix);
        match last_create_table_name(migrations[i].as_str()) {
            Some(name) => {
                let mut drop = String::new();
                push_str(&mut drop, "DROP TABLE IF EXISTS ");
                push_str(&mut drop, name.as_str());
                drops.push(drop);
                proof {
                    let names_after = created_table_names(string_views(migrations@).take(i + 1));
                    assert(names_after == names_before.push(name@));
                    assert(names_after.map_values(|n: Seq<char>| "DROP TABLE IF EXISTS "@ + n) =~= names_before.map_values(
                        |n: Seq<char>| "DROP TABLE IF EXISTS "@ + n,
                    ).push("DROP TABLE IF EXISTS "@ + name@));
                    assert(string_views(drops@) =~= string_views(before).push("DROP TABLE IF EXISTS "@ + name@));
                }
            },
            None => {
                assert(created_table_names(string_views(migrations@).take(i + 1)) == names_before);
            },
        }
        assert(string_views(drops@) =~= drop_table_migrations(string_views(migrations@).take(i + 1)));
        i = i + 1;
    }
    assert(string_views(migrations@).take(migrations@.len() as int) =~= string_views(migrations@));
    drops
}

} // verus!

verus! {

/// The default columns and fields of state tables.
pub struct DefaultMigration;

impl DefaultMigration {
    /// The column definitions every state view and version carries.
    pub fn get() -> (columns: String)
        ensures
            columns@ == DEFAULT_MIGRATION@,
    {
        crate::text::to_owned_string(DEFAULT_MIGRATION)
    }

    /// The event fields every state records.
    pub fn get_fields() -> (fields: &'static [&'static str])
        ensures
            fields@ == DEFAULT_FIELDS@,
    {
        &DEFAULT_FIELDS
    }
}

/// The idempotent migrations a state needs before it is indexed. Implementors give
/// their own migrations; the library derives the rest from them.
pub trait StateMigrations {
    /// The state's own SQL migrations; each should be idempotent (`IF NOT EXISTS`).
    fn migrations(&self) -> &'static [&'static str];

    /// The tables the state's migrations create (see [`table_names_of`]): the names
    /// of the tables created by the migrations that [`StateMigrations::migrations`]
    /// handed back.
    fn get_table_names(&self) -> (names: Vec<String>)
        ensures
            exists|m: &'static [&'static str]|
                call_ensures(Self::migrations, (self,), m) && string_views(names@)
                    == created_table_names(#[trigger] str_views(m@)),
    {
        let m = self.migrations();
        let names = table_names_of(m);
        assert(call_ensures(Self::migrations, (self,), m));
        names
    }

    /// The state's migrations expanded with the state-view and state-version tables,
    /// their column additions and the unique index (see [`expand_migrations`]); `None`
    /// where a migration cannot be expanded.
    fn get_migrations(&self) -> (migrations: Option<Vec<String>>)
        ensures
            exists|m: &'static [&'static str]|
                call_ensures(Self::migrations, (self,), m) && opt_texts(migrations)
                    == expanded_migrations(#[trigger] str_views(m@)),
    {
        let m = self.migrations();
        let out = expand_migrations(m);
        assert(call_ensures(Self::migrations, (self,), m));
        out
    }

    /// A `DROP TABLE IF EXISTS` for every table [`StateMigrations::get_migrations`]
    /// creates; `None` where those migrations cannot be expanded.
    fn get_reset_migrations(&self) -> (resets: Option<Vec<String>>)
        ensures
            exists|m: &'static [&'static str]|
                call_ensures(Self::migrations, (self,), m) && match expanded_migrations(
                    #[trigger] str_views(m@),
                ) {
                    Some(expanded) => opt_texts(resets) == Some(drop_table_migrations(expanded)),
                    None => resets is None,
                },
    {
        match self.get_migrations() {
            Some(migrations) => Some(drop_tables_of(&migrations)),
            None => None,
        }
    }
}

} // verus!

verus! {

/// A migration that does not end with a `CREATE TABLE` is kept as it is.
pub proof fn lemma_other_migrations_untouched(m: Seq<char>)
    requires
        parsed_create_table(m) is None,
    ensures
        expanded_migration(m) == Some(seq![m]),
{
}

/// A migration ending with a `CREATE TABLE` expands, when it expands, to the
/// state-view and state-version tables first and the unique index last.
pub proof fn lemma_expansion_shape(m: Seq<char>)
    requires
        parsed_create_table(m) is Some,
        expanded_migration(m) is Some,
    ensures
        expanded_migration(m)->0.len() >= 4,
        expanded_migration(m)->0[0] == without_repeating_fields(appended_migration(m, DEFAULT_MIGRATION@)->0)->0,
        expanded_migration(m)->0.last() == unique_index_migration(
            versions_table_name(without_repeating_fields(
                versions_named(appended_migration(m, remaining_state_versions_migration())->0),
            )->0)->0,
            index_fields(
                table_fields(m)->0,
                table_fields(without_repeating_fields(
                    versions_named(appended_migration(m, remaining_state_versions_migration())->0),
                )->0)->0,
            ),
        ),
{
}

} // verus!
