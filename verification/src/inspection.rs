//! Read-only, status-scoped SQL for inspecting indexed data, and the small
//! inspection UI that serves it.
use vstd::prelude::*;
use crate::text::{decimal, push_decimal, push_str, str_equals};

verus! {

/// A page of canonical rows of one chain, starting at a block number.
#[derive(Debug, Clone, Copy, Eq, PartialEq)]
pub struct InspectionQuery {
    pub chain_id: u64,
    pub from_block_number: u64,
    pub limit: u32,
}

impl InspectionQuery {
    /// The first hundred rows of a chain.
    pub fn new(chain_id: u64) -> (query: Self)
        ensures
            query == (InspectionQuery { chain_id, from_block_number: 0, limit: 100 }),
    {
        Self { chain_id, from_block_number: 0, limit: 100 }
    }

    pub fn from_block_number(self, from_block_number: u64) -> (query: Self)
        ensures
            query == (InspectionQuery { from_block_number, ..self }),
    {
        Self { from_block_number, ..self }
    }

    /// Sets the page size; a zero limit becomes one, so no query asks for no rows.
    pub fn limit(self, limit: u32) -> (query: Self)
        ensures
            query == (InspectionQuery { limit: if limit == 0 { 1 } else { limit }, ..self }),
    {
        Self { limit: if limit < 1 { 1 } else { limit }, ..self }
    }
}

/// Builders of inspection SQL.
#[derive(Debug, Clone, Copy, Default)]
pub struct InspectionQueries;

/// The canonical rows of `table` for the query, ordered by `order`.
pub open spec fn canonical_rows_sql(table: Seq<char>, order: Seq<char>, q: InspectionQuery) -> Seq<char> {
    "SELECT *\n             FROM "@ + table + "\n             WHERE chain_id = "@ + decimal(
        q.chain_id as nat,
    ) + "\n               AND block_number >= "@ + decimal(q.from_block_number as nat)
        + "\n               AND status = 'canonical'\n             ORDER BY "@ + order
        + "\n             LIMIT "@ + decimal(q.limit as nat)
}

/// The most recent reorgs of a chain, newest first.
pub open spec fn recent_reorgs_sql(chain_id: u64, limit: u32) -> Seq<char> {
    "SELECT *\n             FROM chaindexing_reorgs\n             WHERE chain_id = "@ + decimal(
        chain_id as nat,
    ) + "\n             ORDER BY id DESC\n             LIMIT "@ + decimal(
        (if limit == 0 { 1 } else { limit }) as nat,
    )
}

fn canonical_rows(table: &str, order: &str, query: InspectionQuery) -> (sql: String)
    ensures
        sql@ == canonical_rows_sql(table@, order@, query),
{
    let mut sql = String::new();
    push_str(&mut sql, "SELECT *\n             FROM ");
    push_str(&mut sql, table);
    push_str(&mut sql, "\n             WHERE chain_id = ");
    push_decimal(&mut sql, query.chain_id);
    push_str(&mut sql, "\n               AND block_number >= ");
    push_decimal(&mut sql, query.from_block_number);
    push_str(&mut sql, "\n               AND status = 'canonical'\n             ORDER BY ");
    push_str(&mut sql, order);
    push_str(&mut sql, "\n             LIMIT ");
    push_decimal(&mut sql, query.limit as u64);
    sql
}

impl InspectionQueries {
    /// Canonical events in chain order.
    pub fn canonical_events(query: InspectionQuery) -> (sql: String)
        ensures
            sql@ == canonical_rows_sql(
                "chaindexing_events"@,
                "block_number ASC, transaction_index ASC, log_index ASC"@,
                query,
            ),
    {
        canonical_rows(
            "chaindexing_events",
            "block_number ASC, transaction_index ASC, log_index ASC",
            query,
        )
    }

    /// Canonical transactions in chain order.
    pub fn canonical_transactions(query: InspectionQuery) -> (sql: String)
        ensures
            sql@ == canonical_rows_sql(
                "chaindexing_transactions"@,
                "block_number ASC, transaction_index ASC"@,
                query,
            ),
    {
        canonical_rows("chaindexing_transactions", "block_number ASC, transaction_index ASC", query)
    }

    /// Canonical call traces in chain order.
    pub fn canonical_call_traces(query: InspectionQuery) -> (sql: String)
        ensures
            sql@ == canonical_rows_sql(
                "chaindexing_call_traces"@,
                "block_number ASC, transaction_hash ASC, trace_index ASC"@,
                query,
            ),
    {
        canonical_rows(
            "chaindexing_call_traces",
            "block_number ASC, transaction_hash ASC, trace_index ASC",
            query,
        )
    }

    /// Canonical blocks in chain order.
    pub fn canonical_blocks(query: InspectionQuery) -> (sql: String)
        ensures
            sql@ == canonical_rows_sql("chaindexing_blocks"@, "block_number ASC"@, query),
    {
        canonical_rows("chaindexing_blocks", "block_number ASC", query)
    }

    /// The most recent reorgs of a chain; a zero limit becomes one.
    pub fn recent_reorgs(chain_id: u64, limit: u32) -> (sql: String)
        ensures
            sql@ == recent_reorgs_sql(chain_id, limit),
    {
        let mut sql = String::new();
        push_str(&mut sql, "SELECT *\n             FROM chaindexing_reorgs\n             WHERE chain_id = ");
        push_decimal(&mut sql, chain_id);
        push_str(&mut sql, "\n             ORDER BY id DESC\n             LIMIT ");
        push_decimal(&mut sql, if limit < 1 { 1 } else { limit as u64 });
        sql
    }
}

/// The kinds of rows the inspection UI serves.
#[derive(Debug, Clone, Copy, Eq, PartialEq, Structural)]
pub enum InspectionResource {
    Events,
    Blocks,
    Transactions,
    CallTraces,
    Reorgs,
}

/// A page request of the inspection UI.
#[derive(Debug, Clone, Copy, Eq, PartialEq)]
pub struct InspectionUiQuery {
    pub chain_id: u64,
    pub from_block_number: u64,
    pub limit: u32,
}

/// The largest page the inspection UI serves.
pub const MAX_INSPECTION_UI_LIMIT: u32 = 1_000;

impl InspectionUiQuery {
    pub const MAX_LIMIT: u32 = 1_000;

    /// The first hundred rows of a chain.
    pub fn new(chain_id: u64) -> (query: Self)
        ensures
            query == (InspectionUiQuery { chain_id, from_block_number: 0, limit: 100 }),
    {
        Self { chain_id, from_block_number: 0, limit: 100 }
    }

    pub fn from_block_number(self, from_block_number: u64) -> (query: Self)
        ensures
            query == (InspectionUiQuery { from_block_number, ..self }),
    {
        Self { from_block_number, ..self }
    }

    /// Sets the page size, clamped to `1..=1000` so no request is empty or expensive.
    pub fn limit(self, limit: u32) -> (query: Self)
        ensures
            query == (InspectionUiQuery {
                limit: if limit < 1 { 1 } else if limit > MAX_INSPECTION_UI_LIMIT { MAX_INSPECTION_UI_LIMIT } else { limit },
                ..self
            }),
    {
        let clamped = if limit < 1 {
            1
        } else if limit > MAX_INSPECTION_UI_LIMIT {
            MAX_INSPECTION_UI_LIMIT
        } else {
            limit
        };
        Self { limit: clamped, ..self }
    }

    fn inspection_query(self) -> (query: InspectionQuery)
        ensures
            query == (InspectionQuery {
                chain_id: self.chain_id,
                from_block_number: self.from_block_number,
                limit: if self.limit == 0 { 1 } else { self.limit },
            }),
    {
        InspectionQuery::new(self.chain_id).from_block_number(self.from_block_number).limit(self.limit)
    }
}

/// The inspection query a UI request stands for.
pub open spec fn as_inspection_query(q: InspectionUiQuery) -> InspectionQuery {
    InspectionQuery {
        chain_id: q.chain_id,
        from_block_number: q.from_block_number,
        limit: if q.limit == 0 { 1 } else { q.limit },
    }
}

/// The SQL the UI runs for a resource.
pub open spec fn ui_query_sql(resource: InspectionResource, q: InspectionUiQuery) -> Seq<char> {
    match resource {
        InspectionResource::Events => canonical_rows_sql(
            "chaindexing_events"@,
            "block_number ASC, transaction_index ASC, log_index ASC"@,
            as_inspection_query(q),
        ),
        InspectionResource::Blocks => canonical_rows_sql(
            "chaindexing_blocks"@,
            "block_number ASC"@,
            as_inspection_query(q),
        ),
        InspectionResource::Transactions => canonical_rows_sql(
            "chaindexing_transactions"@,
            "block_number ASC, transaction_index ASC"@,
            as_inspection_query(q),
        ),
        InspectionResource::CallTraces => canonical_rows_sql(
            "chaindexing_call_traces"@,
            "block_number ASC, transaction_hash ASC, trace_index ASC"@,
            as_inspection_query(q),
        ),
        InspectionResource::Reorgs => recent_reorgs_sql(q.chain_id, q.limit),
    }
}

/// The resource an API path names.
pub open spec fn resource_for_path(path: Seq<char>) -> Option<InspectionResource> {
    if path == "/api/events"@ {
        Some(InspectionResource::Events)
    } else if path == "/api/blocks"@ {
        Some(InspectionResource::Blocks)
    } else if path == "/api/transactions"@ {
        Some(InspectionResource::Transactions)
    } else if path == "/api/call-traces"@ {
        Some(InspectionResource::CallTraces)
    } else if path == "/api/reorgs"@ {
        Some(InspectionResource::Reorgs)
    } else {
        None
    }
}

/// A minimal read-only UI over the inspection queries.
pub struct InspectionUi;

impl InspectionUi {
    /// The UI page; it links every API resource.
    pub fn html() -> (page: &'static str)
        ensures
            page == INSPECTION_UI_HTML,
    {
        INSPECTION_UI_HTML
    }

    /// The SQL served for a resource.
    pub fn query(resource: InspectionResource, query: InspectionUiQuery) -> (sql: String)
        ensures
            sql@ == ui_query_sql(resource, query),
    {
        match resource {
            InspectionResource::Events => InspectionQueries::canonical_events(query.inspection_query()),
            InspectionResource::Blocks => InspectionQueries::canonical_blocks(query.inspection_query()),
            InspectionResource::Transactions => InspectionQueries::canonical_transactions(
                query.inspection_query(),
            ),
            InspectionResource::CallTraces => InspectionQueries::canonical_call_traces(
                query.inspection_query(),
            ),
            InspectionResource::Reorgs => InspectionQueries::recent_reorgs(query.chain_id, query.limit),
        }
    }

    /// The resource an API path names, if any.
    pub fn resource_from_api_path(path: &str) -> (resource: Option<InspectionResource>)
        ensures
            resource == resource_for_path(path@),
    {
        if str_equals(path, "/api/events") {
            Some(InspectionResource::Events)
        } else if str_equals(path, "/api/blocks") {
            Some(InspectionResource::Blocks)
        } else if str_equals(path, "/api/transactions") {
            Some(InspectionResource::Transactions)
        } else if str_equals(path, "/api/call-traces") {
            Some(InspectionResource::CallTraces)
        } else if str_equals(path, "/api/reorgs") {
            Some(InspectionResource::Reorgs)
        } else {
            None
        }
    }
}

/// The inspection page: it links every API resource.
pub const INSPECTION_UI_HTML: &'static str = "<!doctype html>
<html>
  <head><meta charset=\"utf-8\"><title>Chaindexing inspection</title></head>
  <body>
    <h1>Chaindexing inspection</h1>
    <nav>
      <a href=\"/api/events\">events</a>
      <a href=\"/api/blocks\">blocks</a>
      <a href=\"/api/transactions\">transactions</a>
      <a href=\"/api/call-traces\">call-traces</a>
      <a href=\"/api/reorgs\">reorgs</a>
    </nav>
    <pre id=\"rows\"></pre>
  </body>
</html>
";

} // verus!
