use sql_client::ops::{open_db, query, schema_summary, DbError};
use sql_client::plan::AccessKind;
use sql_client::schema::KeyKind;
use sql_client::values::SqlValue;

fn make_simple_db(path: &str) {
    let conn = rusqlite::Connection::open(path).unwrap();
    conn.execute_batch(
        "DROP TABLE IF EXISTS t;
         CREATE TABLE t(id INTEGER PRIMARY KEY, name TEXT, val INTEGER);
         CREATE INDEX IF NOT EXISTS idx_t_name ON t(name);
         INSERT INTO t(id, name, val) VALUES
             (1,'a',10),(2,'b',20),(3,'c',30),(4,'d',40),(5,'e',50);",
    )
    .unwrap();
}

fn make_fk_db(path: &str) {
    let conn = rusqlite::Connection::open(path).unwrap();
    conn.execute_batch(
        "DROP TABLE IF EXISTS orders;
         DROP TABLE IF EXISTS customers;
         CREATE TABLE customers(id INTEGER, region TEXT, PRIMARY KEY(id, region));
         CREATE TABLE orders(
             customer_id INTEGER,
             region TEXT,
             amount INTEGER NOT NULL,
             FOREIGN KEY(customer_id, region) REFERENCES customers(id, region)
         );
         CREATE INDEX IF NOT EXISTS idx_orders_amount ON orders(amount);",
    )
    .unwrap();
}

#[test]
fn full_scan_of_five_rows() {
    let path = "/tmp/sql_client_test_scan.db";
    make_simple_db(path);
    let q = query(path, "SELECT * FROM t", 0, 10).unwrap();
    assert_eq!(
        q.columns,
        vec!["id".to_string(), "name".to_string(), "val".to_string()]
    );
    assert_eq!(q.rows.len(), 5);
    assert_eq!(q.total_rows, Some(5));
    let steps = q.plan_steps.unwrap();
    assert!(steps.iter().any(|s| s.to_uppercase().contains("SCAN") && s.contains("t")));
    assert_eq!(q.rows_scanned_estimate, Some(5));
    let tables = q.plan_tables.unwrap();
    assert_eq!(tables.len(), 1);
    assert_eq!(tables[0].table, "t");
    assert_eq!(tables[0].access, AccessKind::Scan);
    assert_eq!(tables[0].total_rows, Some(5));
}

#[test]
fn total_rows_is_page_independent() {
    let path = "/tmp/sql_client_test_pages.db";
    make_simple_db(path);
    let a = query(path, "SELECT * FROM t", 0, 2).unwrap();
    let b = query(path, "SELECT * FROM t", 1, 2).unwrap();
    let c = query(path, "SELECT * FROM t", 0, 10).unwrap();
    assert_eq!(a.total_rows, Some(5));
    assert_eq!(b.total_rows, Some(5));
    assert_eq!(c.total_rows, Some(5));
}

#[test]
fn page_length_follows_total_minus_offset() {
    let path = "/tmp/sql_client_test_len.db";
    make_simple_db(path);
    // total 5: pages of 2 hold 2, 2, 1, 0 rows.
    assert_eq!(query(path, "SELECT * FROM t", 0, 2).unwrap().rows.len(), 2);
    assert_eq!(query(path, "SELECT * FROM t", 1, 2).unwrap().rows.len(), 2);
    assert_eq!(query(path, "SELECT * FROM t", 2, 2).unwrap().rows.len(), 1);
    assert_eq!(query(path, "SELECT * FROM t", 3, 2).unwrap().rows.len(), 0);
}

#[test]
fn indexed_lookup_is_classified_search() {
    let path = "/tmp/sql_client_test_search.db";
    make_simple_db(path);
    let q = query(path, "SELECT * FROM t WHERE name = 'c'", 0, 10).unwrap();
    let tables = q.plan_tables.unwrap();
    assert_eq!(tables.len(), 1);
    assert_eq!(tables[0].table, "t");
    assert_eq!(tables[0].access, AccessKind::Search);
    // No full scan: the estimate is a present zero.
    assert_eq!(q.rows_scanned_estimate, Some(0));
    let insights = q.insights.unwrap();
    assert!(insights.iter().any(|s| s.starts_with("Index used: ")));
}

#[test]
fn row_values_are_decoded() {
    let path = "/tmp/sql_client_test_rows.db";
    make_simple_db(path);
    let q = query(path, "SELECT id, name FROM t WHERE id = 1", 0, 10).unwrap();
    assert_eq!(q.rows.len(), 1);
    let row = &q.rows[0];
    let id = row.entries.iter().find(|e| e.0 == "id").unwrap();
    assert_eq!(id.1, SqlValue::Integer(1));
    let name = row.entries.iter().find(|e| e.0 == "name").unwrap();
    assert_eq!(name.1, SqlValue::Text("a".to_string()));
}

#[test]
fn every_value_variant_decodes() {
    let path = "/tmp/sql_client_test_vals.db";
    let conn = rusqlite::Connection::open(path).unwrap();
    conn.execute_batch(
        "DROP TABLE IF EXISTS vals;
         CREATE TABLE vals(b BLOB, r REAL, n TEXT, z INTEGER);
         INSERT INTO vals VALUES (X'6869', 1.5, NULL, 7);",
    )
    .unwrap();
    drop(conn);
    let q = query(path, "SELECT * FROM vals", 0, 10).unwrap();
    assert_eq!(q.rows.len(), 1);
    let row = &q.rows[0];
    let get = |n: &str| row.entries.iter().find(|e| e.0 == n).unwrap().1.clone();
    assert_eq!(get("b"), SqlValue::Blob("aGk=".to_string()));
    assert_eq!(get("r"), SqlValue::Real(1.5f64.to_bits()));
    assert_eq!(get("n"), SqlValue::Null);
    assert_eq!(get("z"), SqlValue::Integer(7));
}

#[test]
fn huge_page_offset_saturates() {
    let path = "/tmp/sql_client_test_sat.db";
    make_simple_db(path);
    let q = query(path, "SELECT * FROM t", u32::MAX, u32::MAX).unwrap();
    assert_eq!(q.total_rows, Some(5));
    assert_eq!(q.rows.len(), 0);
}

#[test]
fn open_empty_path_is_invalid_input() {
    assert_eq!(open_db(""), Err(DbError::InvalidInput));
}

#[test]
fn open_non_database_file_is_not_a_database() {
    // The running test binary is a non-empty file that is not a database.
    match open_db("/proc/self/exe") {
        Err(DbError::NotADatabase(_)) => {},
        other => panic!("expected NotADatabase, got {:?}", other),
    }
}

#[test]
fn open_valid_database_succeeds() {
    let path = "/tmp/sql_client_test_open.db";
    make_simple_db(path);
    assert_eq!(open_db(path), Ok(()));
}

#[test]
fn open_missing_file_is_open_failure() {
    match open_db("/tmp/sql_client_no_such_file.db") {
        Err(DbError::OpenFailure(_)) => {},
        other => panic!("expected OpenFailure, got {:?}", other),
    }
}

#[test]
fn non_select_returns_empty_result() {
    let path = "/tmp/sql_client_test_batch.db";
    make_simple_db(path);
    // A write statement fails on the read-only connection; a benign batch
    // shows the empty non-select result shape.
    let q = query(path, "BEGIN; COMMIT;", 0, 10).unwrap();
    assert!(q.columns.is_empty());
    assert!(q.rows.is_empty());
    assert_eq!(q.total_rows, None);
    assert_eq!(q.plan_steps, None);
    assert_eq!(q.insights, None);
    assert_eq!(q.plan_tables, None);
    assert_eq!(q.rows_scanned_estimate, None);
}

#[test]
fn delete_on_read_only_connection_fails() {
    let path = "/tmp/sql_client_test_del.db";
    make_simple_db(path);
    match query(path, "DELETE FROM t", 0, 10) {
        Err(DbError::StatementExecutionFailure(_)) => {},
        other => panic!("expected StatementExecutionFailure, got {:?}", other),
    }
    // The rows are still there afterwards.
    let q = query(path, "SELECT * FROM t", 0, 10).unwrap();
    assert_eq!(q.total_rows, Some(5));
}

#[test]
fn bad_select_is_count_failure() {
    let path = "/tmp/sql_client_test_bad.db";
    make_simple_db(path);
    match query(path, "SELECT * FROM no_such_table", 0, 10) {
        Err(DbError::CountFailure(_)) => {},
        other => panic!("expected CountFailure, got {:?}", other),
    }
}

#[test]
fn schema_summary_lists_tables_alphabetically() {
    let path = "/tmp/sql_client_test_schema.db";
    make_fk_db(path);
    let s = schema_summary(path).unwrap();
    let names: Vec<&str> = s.tables.iter().map(|t| t.name.as_str()).collect();
    assert_eq!(names, vec!["customers", "orders"]);
}

#[test]
fn schema_summary_groups_multi_column_foreign_key() {
    let path = "/tmp/sql_client_test_fk.db";
    make_fk_db(path);
    let s = schema_summary(path).unwrap();
    assert_eq!(s.foreign_keys.len(), 1);
    let e = &s.foreign_keys[0];
    assert_eq!(e.from_table, "orders");
    assert_eq!(e.to_table, "customers");
    assert_eq!(e.from_columns, vec!["customer_id".to_string(), "region".to_string()]);
    assert_eq!(e.to_columns, vec!["id".to_string(), "region".to_string()]);
}

#[test]
fn schema_summary_orders_keys_and_flags_columns() {
    let path = "/tmp/sql_client_test_keys.db";
    make_fk_db(path);
    let s = schema_summary(path).unwrap();
    let customers = &s.tables[0];
    assert_eq!(customers.name, "customers");
    assert_eq!(customers.columns.len(), 2);
    assert!(customers.columns[0].pk && customers.columns[1].pk);
    assert_eq!(customers.keys[0].key_type, KeyKind::PrimaryKey);
    assert_eq!(
        customers.keys[0].columns,
        vec!["id".to_string(), "region".to_string()]
    );

    let orders = &s.tables[1];
    assert_eq!(orders.name, "orders");
    let amount = orders.columns.iter().find(|c| c.name == "amount").unwrap();
    assert!(amount.not_null && !amount.pk);
    let kinds: Vec<KeyKind> = orders.keys.iter().map(|k| k.key_type).collect();
    assert_eq!(kinds, vec![KeyKind::ForeignKey, KeyKind::Index]);
    let fk = &orders.keys[0];
    assert_eq!(fk.ref_table.as_deref(), Some("customers"));
    assert_eq!(
        fk.ref_columns.clone().unwrap(),
        vec!["id".to_string(), "region".to_string()]
    );
    let idx = &orders.keys[1];
    assert_eq!(idx.name.as_deref(), Some("idx_orders_amount"));
    assert_eq!(idx.unique, Some(false));
    assert_eq!(idx.columns, vec!["amount".to_string()]);
}

#[test]
fn error_messages_carry_the_stage() {
    assert_eq!(DbError::InvalidInput.message(), "filePath is required");
    assert_eq!(
        DbError::CountFailure("boom".to_string()).message(),
        "Count error: boom"
    );
    assert_eq!(
        DbError::RegistryMiss.message(),
        "No SQLite file registered for this connection"
    );
    assert_eq!(DbError::RegistryPoisoned.message(), "state poisoned");
}
