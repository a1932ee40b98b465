use vstd::prelude::*;
use crate::values::RawValue;

verus! {

// ---------------------------------------------------------------------------
// The engine boundary. Each function here wraps one statement-shaped call
// into rusqlite; nothing about what a statement returns can be promised —
// it depends on the database file — so the contracts state only what the
// wrapper's own conversion guarantees, and every caller handles both
// outcomes. Errors carry the engine's message as plain text.
// ---------------------------------------------------------------------------

#[verifier::external_type_specification]
#[verifier::external_body]
pub struct ExConnection(rusqlite::Connection);

#[verifier::external_type_specification]
#[verifier::external_body]
pub struct ExValueRef<'a>(rusqlite::types::ValueRef<'a>);

/// A statement failure, tagged with the stage that raised it.
#[derive(Debug)]
pub(crate) enum FetchErr {
    Prepare(String),
    Run(String),
    Row(String),
}

/// Relies on rusqlite's `Connection::open_with_flags` with the read-only
/// flag: opens the file as a database without writing to it.
#[verifier::external_body]
pub(crate) fn open_readonly(path: &str) -> (r: Result<rusqlite::Connection, String>) {
    rusqlite::Connection::open_with_flags(path, rusqlite::OpenFlags::SQLITE_OPEN_READ_ONLY)
        .map_err(|e| format!("{}", e))
}

/// Relies on rusqlite's `Connection::pragma_query` reading `schema_version`:
/// it succeeds exactly when the file answers as a database.
#[verifier::external_body]
pub(crate) fn probe_schema_version(conn: &rusqlite::Connection) -> (r: Result<(), String>) {
    conn.pragma_query(None, "schema_version", |_| Ok(())).map_err(|e| format!("{}", e))
}

/// Relies on rusqlite's `Connection::execute_batch`: runs the statements and
/// reports the engine's outcome.
#[verifier::external_body]
pub(crate) fn execute_batch(conn: &rusqlite::Connection, sql: &str) -> (r: Result<(), String>) {
    conn.execute_batch(sql).map_err(|e| format!("{}", e))
}

/// Relies on rusqlite's `Connection::query_row`: hands back the first
/// column of the statement's single row as an integer.
#[verifier::external_body]
pub(crate) fn query_count(conn: &rusqlite::Connection, sql: &str) -> (r: Result<i64, String>) {
    conn.query_row(sql, [], |row| row.get::<usize, i64>(0)).map_err(|e| format!("{}", e))
}

/// Relies on rusqlite's `ValueRef`: tells its variants apart, carrying each
/// payload across unchanged (a real number as its bit pattern, text and
/// blobs as their bytes). Called only from `fetch_paged`'s row closure.
#[verifier::external_body]
fn raw_of(v: rusqlite::types::ValueRef<'_>) -> (r: RawValue) {
    match v {
        rusqlite::types::ValueRef::Null => RawValue::Null,
        rusqlite::types::ValueRef::Integer(x) => RawValue::Integer(x),
        rusqlite::types::ValueRef::Real(x) => RawValue::Real(x.to_bits()),
        rusqlite::types::ValueRef::Text(t) => RawValue::Text(t.to_vec()),
        rusqlite::types::ValueRef::Blob(b) => RawValue::Blob(b.to_vec()),
    }
}

/// Relies on rusqlite's `Statement::query_map` binding a limit and an
/// offset: returns the statement's column names and its rows, each row
/// holding one raw value per column.
#[verifier::external_body]
pub(crate) fn fetch_paged(conn: &rusqlite::Connection, sql: &str, limit: i64, offset: i64) -> (r: Result<
    (Vec<String>, Vec<Vec<RawValue>>),
    FetchErr,
>)
    ensures
        r matches Ok(p) ==> forall|i: int|
            0 <= i < p.1@.len() ==> (#[trigger] p.1@[i])@.len() == p.0@.len(),
{
    let mut stmt = conn.prepare(sql).map_err(|e| FetchErr::Prepare(format!("{}", e)))?;
    let cols: Vec<String> = stmt.column_names().iter().map(|s| s.to_string()).collect();
    let n = cols.len();
    let iter = stmt
        .query_map((limit, offset), |row| {
            (0..n).map(|i| row.get_ref(i).map(raw_of)).collect()
        })
        .map_err(|e| FetchErr::Run(format!("{}", e)))?;
    let mut rows: Vec<Vec<RawValue>> = Vec::new();
    for item in iter {
        rows.push(item.map_err(|e| FetchErr::Row(format!("{}", e)))?);
    }
    Ok((cols, rows))
}

/// Relies on rusqlite's `Statement::query_map`: hands back column `idx` of
/// every row as text.
#[verifier::external_body]
pub(crate) fn fetch_text_column(conn: &rusqlite::Connection, sql: &str, idx: usize) -> (r: Result<
    Vec<String>,
    String,
>) {
    let mut stmt = conn.prepare(sql).map_err(|e| format!("{}", e))?;
    let iter = stmt.query_map([], |row| row.get::<usize, String>(idx)).map_err(
        |e| format!("{}", e),
    )?;
    let mut out: Vec<String> = Vec::new();
    for item in iter {
        out.push(item.map_err(|e| format!("{}", e))?);
    }
    Ok(out)
}

/// Relies on rusqlite's `Statement::query_map` over column metadata rows:
/// hands back (name, declared type, not-null flag, primary-key ordinal).
#[verifier::external_body]
pub(crate) fn fetch_table_info(conn: &rusqlite::Connection, sql: &str) -> (r: Result<
    Vec<(String, Option<String>, i64, i64)>,
    String,
>) {
    let mut stmt = conn.prepare(sql).map_err(|e| format!("{}", e))?;
    let iter = stmt
        .query_map([], |row| Ok((row.get(1)?, row.get(2)?, row.get(3)?, row.get(5)?)))
        .map_err(|e| format!("{}", e))?;
    let mut out: Vec<(String, Option<String>, i64, i64)> = Vec::new();
    for item in iter {
        out.push(item.map_err(|e| format!("{}", e))?);
    }
    Ok(out)
}

/// Relies on rusqlite's `Statement::query_map` over foreign-key rows: hands
/// back (constraint id, referenced table, from column, to column).
#[verifier::external_body]
pub(crate) fn fetch_fk_rows(conn: &rusqlite::Connection, sql: &str) -> (r: Result<
    Vec<(i64, String, String, String)>,
    String,
>) {
    let mut stmt = conn.prepare(sql).map_err(|e| format!("{}", e))?;
    let iter = stmt
        .query_map([], |row| Ok((row.get(0)?, row.get(2)?, row.get(3)?, row.get(4)?)))
        .map_err(|e| format!("{}", e))?;
    let mut out: Vec<(i64, String, String, String)> = Vec::new();
    for item in iter {
        out.push(item.map_err(|e| format!("{}", e))?);
    }
    Ok(out)
}

/// Relies on rusqlite's `Statement::query_map` over index-list rows: hands
/// back (index name, uniqueness flag).
#[verifier::external_body]
pub(crate) fn fetch_index_list(conn: &rusqlite::Connection, sql: &str) -> (r: Result<
    Vec<(String, i64)>,
    String,
>) {
    let mut stmt = conn.prepare(sql).map_err(|e| format!("{}", e))?;
    let iter = stmt.query_map([], |row| Ok((row.get(1)?, row.get(2)?))).map_err(
        |e| format!("{}", e),
    )?;
    let mut out: Vec<(String, i64)> = Vec::new();
    for item in iter {
        out.push(item.map_err(|e| format!("{}", e))?);
    }
    Ok(out)
}

} // verus!
