use sql_client::plan::{analyze_plan, AccessKind};
use sql_client::schema::{group_foreign_keys, user_tables, KeyKind};
use sql_client::values::{build_row, decode_value, RawValue, SqlValue};

#[test]
fn scan_step_yields_full_scan_insight() {
    let steps = vec!["SCAN t".to_string()];
    let (insights, access) = analyze_plan(&steps);
    assert_eq!(insights, vec!["Full scan: SCAN t".to_string()]);
    assert_eq!(access.len(), 1);
    assert_eq!(access[0].0, "t");
    assert_eq!(access[0].1, AccessKind::Scan);
}

#[test]
fn search_step_with_index_yields_index_insight() {
    let steps = vec!["SEARCH t USING INDEX idx_t_name (name=?)".to_string()];
    let (insights, access) = analyze_plan(&steps);
    assert_eq!(
        insights,
        vec!["Index used: SEARCH t USING INDEX idx_t_name (name=?)".to_string()]
    );
    assert_eq!(access.len(), 1);
    assert_eq!(access[0].0, "t");
    assert_eq!(access[0].1, AccessKind::Search);
}

#[test]
fn scan_beats_search_in_either_order() {
    let steps = vec!["SEARCH t USING INDEX i".to_string(), "SCAN t".to_string()];
    let (_, access) = analyze_plan(&steps);
    assert_eq!(access.len(), 1);
    assert_eq!(access[0].1, AccessKind::Scan);

    let steps = vec!["SCAN t".to_string(), "SEARCH t USING INDEX i".to_string()];
    let (_, access) = analyze_plan(&steps);
    assert_eq!(access.len(), 1);
    assert_eq!(access[0].1, AccessKind::Scan);
}

#[test]
fn table_keyword_and_quotes_are_skipped() {
    let steps = vec!["SCAN TABLE orders".to_string()];
    let (_, access) = analyze_plan(&steps);
    assert_eq!(access[0].0, "orders");

    let steps = vec!["SCAN \"my table\"".to_string()];
    let (_, access) = analyze_plan(&steps);
    assert_eq!(access[0].0, "my table");

    let steps = vec!["SEARCH 'quoted' USING INDEX i".to_string()];
    let (_, access) = analyze_plan(&steps);
    assert_eq!(access[0].0, "quoted");
}

#[test]
fn matching_is_case_insensitive() {
    let steps = vec!["scan table t".to_string()];
    let (insights, access) = analyze_plan(&steps);
    assert_eq!(insights, vec!["Full scan: scan table t".to_string()]);
    assert_eq!(access[0].0, "t");
    assert_eq!(access[0].1, AccessKind::Scan);
}

#[test]
fn unclassified_plan_gets_fallback_insight() {
    let steps = vec!["COMPOUND QUERY".to_string()];
    let (insights, access) = analyze_plan(&steps);
    assert_eq!(
        insights,
        vec!["Plan analyzed with no obvious full scans".to_string()]
    );
    assert!(access.is_empty());
}

#[test]
fn empty_plan_gets_no_insights() {
    let steps: Vec<String> = vec![];
    let (insights, access) = analyze_plan(&steps);
    assert!(insights.is_empty());
    assert!(access.is_empty());
}

#[test]
fn user_tables_sorted_and_internal_excluded() {
    let names = vec![
        "orders".to_string(),
        "sqlite_sequence".to_string(),
        "customers".to_string(),
        "archive".to_string(),
    ];
    let r = user_tables(&names);
    assert_eq!(
        r,
        vec![
            "archive".to_string(),
            "customers".to_string(),
            "orders".to_string()
        ]
    );
}

#[test]
fn multi_column_foreign_key_stays_one_group() {
    let rows = vec![
        (0i64, "customers".to_string(), "customer_id".to_string(), "id".to_string()),
        (0i64, "customers".to_string(), "region".to_string(), "region".to_string()),
    ];
    let gs = group_foreign_keys(&rows);
    assert_eq!(gs.len(), 1);
    assert_eq!(gs[0].ref_table, "customers");
    assert_eq!(
        gs[0].from_cols,
        vec!["customer_id".to_string(), "region".to_string()]
    );
    assert_eq!(gs[0].to_cols, vec!["id".to_string(), "region".to_string()]);
}

#[test]
fn two_constraints_give_two_groups() {
    let rows = vec![
        (0i64, "a".to_string(), "x".to_string(), "id".to_string()),
        (1i64, "b".to_string(), "y".to_string(), "id".to_string()),
    ];
    let gs = group_foreign_keys(&rows);
    assert_eq!(gs.len(), 2);
    assert_ne!(gs[0].id, gs[1].id);
}

#[test]
fn blob_values_are_base64_encoded() {
    let v = decode_value(RawValue::Blob(vec![0u8, 0u8, 0u8]));
    assert_eq!(v, SqlValue::Blob("AAAA".to_string()));
    let v = decode_value(RawValue::Blob(vec![0x68, 0x69]));
    assert_eq!(v, SqlValue::Blob("aGk=".to_string()));
}

#[test]
fn text_values_are_decoded_lossily() {
    let v = decode_value(RawValue::Text(vec![0x68, 0x69]));
    assert_eq!(v, SqlValue::Text("hi".to_string()));
    let v = decode_value(RawValue::Text(vec![0xFF]));
    assert_eq!(v, SqlValue::Text("\u{FFFD}".to_string()));
}

#[test]
fn scalar_values_decode_unchanged() {
    assert_eq!(decode_value(RawValue::Null), SqlValue::Null);
    assert_eq!(decode_value(RawValue::Integer(-7)), SqlValue::Integer(-7));
    let bits = 1.5f64.to_bits();
    assert_eq!(decode_value(RawValue::Real(bits)), SqlValue::Real(bits));
}

#[test]
fn duplicate_column_names_collapse_last_write_wins() {
    let cols = vec!["a".to_string(), "b".to_string(), "a".to_string()];
    let vals = vec![
        SqlValue::Integer(1),
        SqlValue::Integer(2),
        SqlValue::Integer(3),
    ];
    let row = build_row(&cols, vals);
    assert_eq!(row.entries.len(), 2);
    let a = row.entries.iter().find(|e| e.0 == "a").unwrap();
    assert_eq!(a.1, SqlValue::Integer(3));
    let b = row.entries.iter().find(|e| e.0 == "b").unwrap();
    assert_eq!(b.1, SqlValue::Integer(2));
}

#[test]
fn key_kinds_are_distinct() {
    assert_ne!(KeyKind::PrimaryKey, KeyKind::ForeignKey);
    assert_ne!(KeyKind::ForeignKey, KeyKind::Index);
}
