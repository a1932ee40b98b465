use vstd::prelude::*;
use vstd::string::*;
use crate::db::{
    execute_batch, fetch_fk_rows, fetch_index_list, fetch_paged, fetch_table_info,
    fetch_text_column, open_readonly, probe_schema_version, query_count, FetchErr,
};
use crate::plan::{
    access_views, analyze_plan, insights_spec, sat_add_u64, scan_sum, table_access_spec,
    AccessKind, PlanTableInfo,
};
use crate::schema::{
    build_columns, group_foreign_keys, is_internal_name, is_internal_name_x, keys_wf, pk_columns,
    pk_names_of, push_index_key, sorted_names, table_keys_and_edges, user_tables, DbSchemaSummary,
    KeyKind, TableInfo,
};
use crate::text::{
    chars_of, double_char, double_char_x, matches_ci_at, matches_ci_at_x, seq_le, skip_ws,
    skip_ws_x, starts_with_cs_x, str_views, string_of_chars, without_char, without_char_x,
};
use crate::values::{
    build_row, col_name_set, decode_value, lemma_row_map_dom, row_map_spec, RawValue, SqlRow,
    SqlValue,
};

verus! {

// ---------------------------------------------------------------------------
// The three operations: validate-and-open, paged query with plan insights,
// and the schema summary. Each opens its own read-only connection from a
// file path resolved by the caller.
// ---------------------------------------------------------------------------

/// Why an operation failed, tagged with the stage that failed; each variant
/// but the first three carries the engine's message.
#[derive(Debug, PartialEq, Eq)]
pub enum DbError {
    /// The file path was empty.
    InvalidInput,
    /// No file path is registered for the connection handle.
    RegistryMiss,
    /// The handle registry's lock was poisoned by a panic.
    RegistryPoisoned,
    OpenFailure(String),
    NotADatabase(String),
    StatementPrepareFailure(String),
    StatementExecutionFailure(String),
    CountFailure(String),
    RowDecodeFailure(String),
    PlanExplainFailure(String),
}

impl DbError {
    /// The human-readable wire form: the stage, then the engine's message.
    pub fn message(&self) -> (r: String)
        ensures
            match self {
                DbError::InvalidInput => r@ == "filePath is required"@,
                DbError::RegistryMiss => r@ == "No SQLite file registered for this connection"@,
                DbError::RegistryPoisoned => r@ == "state poisoned"@,
                DbError::OpenFailure(m) => r@ == "Failed to open DB: "@ + m@,
                DbError::NotADatabase(m) => r@ == "Not a valid SQLite database: "@ + m@,
                DbError::StatementPrepareFailure(m) => r@ == "Prepare error: "@ + m@,
                DbError::StatementExecutionFailure(m) => r@ == "Execution error: "@ + m@,
                DbError::CountFailure(m) => r@ == "Count error: "@ + m@,
                DbError::RowDecodeFailure(m) => r@ == "Row error: "@ + m@,
                DbError::PlanExplainFailure(m) => r@ == "Explain error: "@ + m@,
            },
    {
        match self {
            DbError::InvalidInput => String::from_str("filePath is required"),
            DbError::RegistryMiss => String::from_str(
                "No SQLite file registered for this connection",
            ),
            DbError::RegistryPoisoned => String::from_str("state poisoned"),
            DbError::OpenFailure(m) => crate::text::concat_str("Failed to open DB: ", m.as_str()),
            DbError::NotADatabase(m) => crate::text::concat_str(
                "Not a valid SQLite database: ",
                m.as_str(),
            ),
            DbError::StatementPrepareFailure(m) => crate::text::concat_str(
                "Prepare error: ",
                m.as_str(),
            ),
            DbError::StatementExecutionFailure(m) => crate::text::concat_str(
                "Execution error: ",
                m.as_str(),
            ),
            DbError::CountFailure(m) => crate::text::concat_str("Count error: ", m.as_str()),
            DbError::RowDecodeFailure(m) => crate::text::concat_str("Row error: ", m.as_str()),
            DbError::PlanExplainFailure(m) => crate::text::concat_str(
                "Explain error: ",
                m.as_str(),
            ),
        }
    }
}

/// One page of a query's result, with the plan-derived fields present
/// exactly for read statements.
#[derive(Debug, PartialEq, Eq)]
pub struct QueryResult {
    pub columns: Vec<String>,
    pub rows: Vec<SqlRow>,
    pub total_rows: Option<u64>,
    pub plan_steps: Option<Vec<String>>,
    pub insights: Option<Vec<String>>,
    pub plan_tables: Option<Vec<PlanTableInfo>>,
    pub rows_scanned_estimate: Option<u64>,
}

/// The result a non-read statement yields: no columns, no rows, every
/// optional field absent.
pub open spec fn empty_query_result(q: QueryResult) -> bool {
    &&& q.columns@.len() == 0
    &&& q.rows@.len() == 0
    &&& q.total_rows is None
    &&& q.plan_steps is None
    &&& q.insights is None
    &&& q.plan_tables is None
    &&& q.rows_scanned_estimate is None
}

// ---------------------------------------------------------------------------
// Statement classification and statement building.
// ---------------------------------------------------------------------------

/// A read statement: after leading whitespace, the text begins with the
/// keyword SELECT, case-insensitively.
pub open spec fn is_select_sql(s: Seq<char>) -> bool {
    matches_ci_at(s, "SELECT"@, skip_ws(s, 0))
}

pub fn is_select_sql_x(sql: &str) -> (r: bool)
    ensures
        r == is_select_sql(sql@),
{
    let cs = chars_of(sql);
    let t = skip_ws_x(&cs, 0);
    let kw = chars_of("SELECT");
    if kw.len() <= cs.len() - t {
        matches_ci_at_x(&cs, &kw, t)
    } else {
        proof {
            assert(!matches_ci_at(cs@, kw@, t as int));
        }
        false
    }
}

/// The counting statement for a read statement; it depends on the statement
/// text alone, never on the requested page.
pub fn count_sql(sql: &str) -> (r: String)
    ensures
        r@ == "SELECT COUNT(*) AS count FROM ( "@ + sql@ + " )"@,
{
    let mut s = String::from_str("SELECT COUNT(*) AS count FROM ( ");
    s.append(sql);
    s.append(" )");
    s
}

/// The paging statement: the page bounds are bound as parameters, so the
/// statement text also depends on the statement alone.
pub fn paged_sql(sql: &str) -> (r: String)
    ensures
        r@ == "SELECT * FROM ( "@ + sql@ + " ) LIMIT ? OFFSET ?"@,
{
    let mut s = String::from_str("SELECT * FROM ( ");
    s.append(sql);
    s.append(" ) LIMIT ? OFFSET ?");
    s
}

pub fn explain_sql(sql: &str) -> (r: String)
    ensures
        r@ == "EXPLAIN QUERY PLAN "@ + sql@,
{
    let mut s = String::from_str("EXPLAIN QUERY PLAN ");
    s.append(sql);
    s
}

/// A pragma statement over a name, single quotes in the name doubled.
pub fn pragma_sql(prefix: &str, name: &str, suffix: &str) -> (r: String)
    ensures
        r@ == prefix@ + double_char(name@, '\'') + suffix@,
{
    let cs = chars_of(name);
    let esc = double_char_x(&cs, '\'');
    let mid = string_of_chars(&esc);
    let mut s = String::from_str(prefix);
    s.append(mid.as_str());
    s.append(suffix);
    s
}

/// The per-table counting statement, double quotes stripped from the name.
pub fn count_table_sql(name: &str) -> (r: String)
    ensures
        r@ == "SELECT COUNT(*) FROM \""@ + without_char(name@, '"') + "\""@,
{
    let cs = chars_of(name);
    let stripped = without_char_x(&cs, '"');
    let mid = string_of_chars(&stripped);
    let mut s = String::from_str("SELECT COUNT(*) FROM \"");
    s.append(mid.as_str());
    s.append("\"");
    s
}

fn count_to_u64(c: i64) -> (r: u64)
    ensures
        r == (if c < 0 {
            0u64
        } else {
            c as u64
        }),
{
    if c < 0 {
        0
    } else {
        c as u64
    }
}

// ---------------------------------------------------------------------------
// open: validate a file as an openable database.
// ---------------------------------------------------------------------------

/// Validates that `file_path` names an openable database: an empty path is
/// rejected outright, a file the engine cannot open fails as OpenFailure,
/// and one that opens but does not answer a metadata probe as NotADatabase.
pub fn open_db(file_path: &str) -> (r: Result<(), DbError>)
    ensures
        (r == Err::<(), DbError>(DbError::InvalidInput)) <==> file_path@.len() == 0,
        r matches Err(e) ==> (e is InvalidInput || e is OpenFailure || e is NotADatabase),
{
    if file_path.is_empty() {
        return Err(DbError::InvalidInput);
    }
    let conn = match open_readonly(file_path) {
        Ok(c) => c,
        Err(m) => {
            return Err(DbError::OpenFailure(m));
        },
    };
    match probe_schema_version(&conn) {
        Ok(u) => Ok(u),
        Err(m) => Err(DbError::NotADatabase(m)),
    }
}

// ---------------------------------------------------------------------------
// query: one page of results, with plan-derived insights for read
// statements.
// ---------------------------------------------------------------------------

/// The entries of `m` whose table is not engine-internal, in order.
pub open spec fn non_internal_access(m: Seq<(Seq<char>, AccessKind)>) -> Seq<
    (Seq<char>, AccessKind),
>
    decreases m.len(),
{
    if m.len() == 0 {
        Seq::empty()
    } else if is_internal_name(m.last().0) {
        non_internal_access(m.drop_last())
    } else {
        non_internal_access(m.drop_last()).push(m.last())
    }
}

pub open spec fn pti_views(ts: Seq<PlanTableInfo>) -> Seq<(Seq<char>, AccessKind)> {
    Seq::new(ts.len(), |i: int| (ts[i].table@, ts[i].access))
}

/// Collects, per non-internal table the plan refers to, its access kind and
/// a best-effort row count, and the scanned-row estimate: the saturating sum
/// of the known counts of exactly the SCAN-classified tables.
fn build_plan_tables(conn: &rusqlite::Connection, access: &Vec<(String, AccessKind)>) -> (r: (
    Vec<PlanTableInfo>,
    u64,
))
    ensures
        pti_views(r.0@) == non_internal_access(access_views(access@)),
        r.1 == scan_sum(r.0@),
{
    let mut pt: Vec<PlanTableInfo> = Vec::new();
    let mut est: u64 = 0;
    let mut k: usize = 0;
    while k < access.len()
        invariant
            0 <= k <= access@.len(),
            pti_views(pt@) == non_internal_access(access_views(access@).take(k as int)),
            est == scan_sum(pt@),
        decreases access@.len() - k,
    {
        proof {
            assert(access_views(access@).take(k as int + 1).drop_last() =~= access_views(
                access@,
            ).take(k as int));
            assert(access_views(access@).take(k as int + 1).last() == (
                access@[k as int].0@,
                access@[k as int].1,
            ));
        }
        let name = access[k].0.clone();
        let a = access[k].1;
        if !is_internal_name_x(name.as_str()) {
            let csql = count_table_sql(name.as_str());
            let total: Option<u64> = match query_count(conn, csql.as_str()) {
                Ok(c) => Some(count_to_u64(c)),
                Err(_) => None,
            };
            let ghost pre = pt@;
            pt.push(PlanTableInfo { table: name, access: a, total_rows: total });
            proof {
                assert(pt@.drop_last() =~= pre);
                assert(pti_views(pt@) =~= pti_views(pre).push((access@[k as int].0@, a)));
            }
            match total {
                Some(c) => {
                    if a == AccessKind::Scan {
                        est = est.saturating_add(c);
                        proof {
                            assert(est == sat_add_u64(scan_sum(pre), c));
                        }
                    }
                },
                None => {},
            }
        }
        k += 1;
    }
    proof {
        assert(access_views(access@).take(access@.len() as int) =~= access_views(access@));
    }
    (pt, est)
}

/// What a read statement's result looks like: at most a page of well-formed
/// rows, every plan-derived field present, the insights exactly those of the
/// plan steps, the table list exactly the plan's non-internal tables, and
/// the estimate the scan sum over that list — zero, not absent, when no
/// table was scanned.
pub open spec fn select_result_wf(q: QueryResult, page_size: u32) -> bool {
    &&& q.rows@.len() <= page_size
    &&& q.total_rows is Some
    &&& q.plan_steps is Some
    &&& q.insights is Some
    &&& q.rows_scanned_estimate is Some
    &&& str_views(q.insights->Some_0@) == insights_spec(str_views(q.plan_steps->Some_0@))
    &&& {
        let m = non_internal_access(table_access_spec(str_views(q.plan_steps->Some_0@)));
        match q.plan_tables {
            Some(ts) => ts@.len() > 0 && pti_views(ts@) == m && q.rows_scanned_estimate == Some(
                scan_sum(ts@),
            ),
            None => m.len() == 0 && q.rows_scanned_estimate == Some(0u64),
        }
    }
    &&& forall|i: int| 0 <= i < q.rows@.len() ==> (#[trigger] q.rows@[i]).wf()
    &&& forall|i: int|
        0 <= i < q.rows@.len() ==> (#[trigger] q.rows@[i]).as_map().dom() <= col_name_set(
            q.columns@,
        )
}

/// Runs `sql` against the database at `file_path`. A non-read statement is
/// executed as a batch and yields the empty result. A read statement yields
/// its total row count and the requested page — the page offset saturates
/// instead of wrapping — together with the plan analysis.
pub fn query(file_path: &str, sql: &str, page: u32, page_size: u32) -> (r: Result<
    QueryResult,
    DbError,
>)
    ensures
        match r {
            Ok(q) => if is_select_sql(sql@) {
                select_result_wf(q, page_size)
            } else {
                empty_query_result(q)
            },
            Err(e) => {
                &&& {
                    ||| e is OpenFailure
                    ||| e is StatementPrepareFailure
                    ||| e is StatementExecutionFailure
                    ||| e is CountFailure
                    ||| e is RowDecodeFailure
                    ||| e is PlanExplainFailure
                }
                &&& !is_select_sql(sql@) ==> (e is OpenFailure || e is StatementExecutionFailure)
            },
        },
{
    let conn = match open_readonly(file_path) {
        Ok(c) => c,
        Err(m) => {
            return Err(DbError::OpenFailure(m));
        },
    };
    if !is_select_sql_x(sql) {
        return match execute_batch(&conn, sql) {
            Ok(u) => Ok(
                QueryResult {
                    columns: Vec::new(),
                    rows: Vec::new(),
                    total_rows: None,
                    plan_steps: None,
                    insights: None,
                    plan_tables: None,
                    rows_scanned_estimate: None,
                },
            ),
            Err(m) => Err(DbError::StatementExecutionFailure(m)),
        };
    }
    let csql = count_sql(sql);
    let total: u64 = match query_count(&conn, csql.as_str()) {
        Ok(c) => count_to_u64(c),
        Err(m) => {
            return Err(DbError::CountFailure(m));
        },
    };
    proof {
        let pi = page as int;
        let si = page_size as int;
        assert(pi * si <= 0xFFFF_FFFF * 0xFFFF_FFFF) by (nonlinear_arith)
            requires
                0 <= pi <= 0xFFFF_FFFF,
                0 <= si <= 0xFFFF_FFFF,
        ;
    }
    let prod: u64 = (page as u64) * (page_size as u64);
    let offset: i64 = if prod > 0xFFFF_FFFFu64 {
        0xFFFF_FFFFi64
    } else {
        prod as i64
    };
    let limit: i64 = page_size as i64;
    let psql = paged_sql(sql);
    let (cols, raws) = match fetch_paged(&conn, psql.as_str(), limit, offset) {
        Ok(p) => p,
        Err(FetchErr::Prepare(m)) => {
            return Err(DbError::StatementPrepareFailure(m));
        },
        Err(FetchErr::Run(m)) => {
            return Err(DbError::StatementExecutionFailure(m));
        },
        Err(FetchErr::Row(m)) => {
            return Err(DbError::RowDecodeFailure(m));
        },
    };
    let mut raws = raws;
    let mut rows: Vec<SqlRow> = Vec::new();
    while raws.len() > 0
        invariant
            forall|i: int| 0 <= i < raws@.len() ==> (#[trigger] raws@[i])@.len() == cols@.len(),
            forall|i: int| 0 <= i < rows@.len() ==> (#[trigger] rows@[i]).wf(),
            forall|i: int|
                0 <= i < rows@.len() ==> (#[trigger] rows@[i]).as_map().dom() <= col_name_set(
                    cols@,
                ),
        decreases raws@.len(),
    {
        let ghost rpre = raws@;
        let row = raws.remove(0);
        proof {
            assert(forall|i: int|
                0 <= i < raws@.len() ==> raws@[i] == #[trigger] rpre[i + 1]);
        }
        let mut rr = row;
        let mut vals: Vec<SqlValue> = Vec::new();
        while rr.len() > 0
            invariant
                vals@.len() + rr@.len() == cols@.len(),
            decreases rr@.len(),
        {
            vals.push(decode_value(rr.remove(0)));
        }
        let ghost vv = vals@;
        let built = build_row(&cols, vals);
        proof {
            lemma_row_map_dom(cols@, vv);
        }
        rows.push(built);
    }
    let ps_usize = page_size as usize;
    if rows.len() > ps_usize {
        let ghost before = rows@;
        rows.truncate(ps_usize);
        proof {
            assert(forall|i: int|
                0 <= i < rows@.len() ==> rows@[i] == #[trigger] before[i]);
        }
    }
    let esql = explain_sql(sql);
    let steps = match fetch_text_column(&conn, esql.as_str(), 3) {
        Ok(s) => s,
        Err(m) => {
            return Err(DbError::PlanExplainFailure(m));
        },
    };
    let (insights, access) = analyze_plan(&steps);
    let (ptables, est) = build_plan_tables(&conn, &access);
    proof {
        if ptables@.len() == 0 {
            assert(pti_views(ptables@).len() == 0);
        }
    }
    let plan_tables = if ptables.len() == 0 {
        None
    } else {
        Some(ptables)
    };
    Ok(
        QueryResult {
            columns: cols,
            rows,
            total_rows: Some(total),
            plan_steps: Some(steps),
            insights: Some(insights),
            plan_tables,
            rows_scanned_estimate: Some(est),
        },
    )
}

// ---------------------------------------------------------------------------
// schemaSummary: the full schema graph.
// ---------------------------------------------------------------------------

pub open spec fn table_names(ts: Seq<TableInfo>) -> Seq<String> {
    Seq::new(ts.len(), |i: int| ts[i].name)
}

/// A table's primary-key entry agrees with its columns: when any column is
/// flagged a primary-key member, the first key is the primary key and lists
/// exactly those columns in definition order; otherwise no key is one.
pub open spec fn pk_consistent(t: TableInfo) -> bool {
    if pk_names_of(t.columns@).len() > 0 {
        &&& t.keys@.len() > 0
        &&& t.keys@[0].key_type == KeyKind::PrimaryKey
        &&& str_views(t.keys@[0].columns@) == pk_names_of(t.columns@)
    } else {
        forall|j: int| 0 <= j < t.keys@.len() ==> (#[trigger] t.keys@[j]).key_type != KeyKind::PrimaryKey
    }
}

/// Assembles the schema summary: the user tables in alphabetical order, each
/// with its columns and well-formed key list (primary key first, then
/// foreign keys, then indexes), and one schema-wide edge per foreign-key
/// constraint, its column lists position-aligned.
pub fn schema_summary(file_path: &str) -> (r: Result<DbSchemaSummary, DbError>)
    ensures
        match r {
            Ok(s) => {
                &&& sorted_names(table_names(s.tables@))
                &&& forall|i: int|
                    0 <= i < s.tables@.len() ==> !is_internal_name((#[trigger] s.tables@[i]).name@)
                &&& forall|i: int| 0 <= i < s.tables@.len() ==> keys_wf((#[trigger] s.tables@[i]).keys@)
                &&& forall|i: int| 0 <= i < s.tables@.len() ==> pk_consistent(#[trigger] s.tables@[i])
                &&& forall|i: int|
                    0 <= i < s.foreign_keys@.len() ==> (#[trigger] s.foreign_keys@[i]).from_columns@.len()
                        == s.foreign_keys@[i].to_columns@.len()
            },
            Err(e) => e is OpenFailure || e is StatementExecutionFailure,
        },
{
    let conn = match open_readonly(file_path) {
        Ok(c) => c,
        Err(m) => {
            return Err(DbError::OpenFailure(m));
        },
    };
    let fetched = match fetch_text_column(
        &conn,
        "SELECT name FROM sqlite_master WHERE type='table' AND name NOT LIKE 'sqlite_%' ORDER BY name",
        0,
    ) {
        Ok(x) => x,
        Err(m) => {
            return Err(DbError::StatementExecutionFailure(m));
        },
    };
    let names = user_tables(&fetched);
    let mut tables: Vec<TableInfo> = Vec::new();
    let mut edges: Vec<crate::schema::ForeignKeyEdge> = Vec::new();
    let mut t: usize = 0;
    while t < names.len()
        invariant
            0 <= t <= names@.len(),
            tables@.len() == t,
            forall|i: int| 0 <= i < t ==> (#[trigger] tables@[i]).name@ == names@[i]@,
            forall|i: int| 0 <= i < t ==> keys_wf((#[trigger] tables@[i]).keys@),
            forall|i: int| 0 <= i < t ==> pk_consistent(#[trigger] tables@[i]),
            forall|i: int|
                0 <= i < edges@.len() ==> (#[trigger] edges@[i]).from_columns@.len()
                    == edges@[i].to_columns@.len(),
        decreases names@.len() - t,
    {
        let name = names[t].clone();
        let tisql = pragma_sql("PRAGMA table_info('", name.as_str(), "')");
        let tirows = match fetch_table_info(&conn, tisql.as_str()) {
            Ok(x) => x,
            Err(m) => {
                return Err(DbError::StatementExecutionFailure(m));
            },
        };
        let cols = build_columns(&tirows);
        let pk = pk_columns(&cols);
        let fksql = pragma_sql("PRAGMA foreign_key_list('", name.as_str(), "')");
        let fkrows = match fetch_fk_rows(&conn, fksql.as_str()) {
            Ok(x) => x,
            Err(m) => {
                return Err(DbError::StatementExecutionFailure(m));
            },
        };
        let groups = group_foreign_keys(&fkrows);
        let ghost gv = groups@;
        let ghost epre = edges@;
        let mut keys = table_keys_and_edges(&name, pk, groups, &mut edges);
        proof {
            assert forall|i: int| 0 <= i < edges@.len() implies (#[trigger] edges@[i]).from_columns@.len()
                == edges@[i].to_columns@.len() by {
                if i < epre.len() {
                    assert(edges@[i] == epre[i]);
                } else {
                    let p = i - epre.len();
                    assert(gv[p].from_cols@.len() == gv[p].to_cols@.len());
                    assert(edges@[epre.len() + p].from_columns@ == gv[p].from_cols@);
                    assert(edges@[epre.len() + p].to_columns@ == gv[p].to_cols@);
                }
            }
        }
        let ilsql = pragma_sql("PRAGMA index_list('", name.as_str(), "')");
        let idxs = match fetch_index_list(&conn, ilsql.as_str()) {
            Ok(x) => x,
            Err(m) => {
                return Err(DbError::StatementExecutionFailure(m));
            },
        };
        let auto_prefix = chars_of("sqlite_autoindex");
        let mut j: usize = 0;
        while j < idxs.len()
            invariant
                0 <= j <= idxs@.len(),
                keys_wf(keys@),
                pk_names_of(cols@).len() > 0 ==> keys@.len() > 0 && keys@[0].key_type
                    == KeyKind::PrimaryKey && str_views(keys@[0].columns@) == pk_names_of(cols@),
                pk_names_of(cols@).len() == 0 ==> forall|i: int|
                    0 <= i < keys@.len() ==> (#[trigger] keys@[i]).key_type != KeyKind::PrimaryKey,
                forall|i: int|
                    0 <= i < edges@.len() ==> (#[trigger] edges@[i]).from_columns@.len()
                        == edges@[i].to_columns@.len(),
            decreases idxs@.len() - j,
        {
            let iname = idxs[j].0.clone();
            let uniq = idxs[j].1;
            let incs = chars_of(iname.as_str());
            if !starts_with_cs_x(&incs, &auto_prefix) {
                let iisql = pragma_sql("PRAGMA index_info('", iname.as_str(), "')");
                let icols = match fetch_text_column(&conn, iisql.as_str(), 2) {
                    Ok(x) => x,
                    Err(m) => {
                        return Err(DbError::StatementExecutionFailure(m));
                    },
                };
                push_index_key(&mut keys, iname, uniq != 0, icols);
            }
            j += 1;
        }
        tables.push(TableInfo { name, columns: cols, keys });
        t += 1;
    }
    proof {
        assert forall|i: int, j: int|
            #![trigger table_names(tables@)[i], table_names(tables@)[j]]
            0 <= i < j < tables@.len() implies seq_le(
            table_names(tables@)[i]@,
            table_names(tables@)[j]@,
        ) by {
            assert(tables@[i].name@ == names@[i]@);
            assert(tables@[j].name@ == names@[j]@);
        }
    }
    Ok(DbSchemaSummary { tables, foreign_keys: edges })
}

} // verus!
