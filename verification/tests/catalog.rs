use std::collections::HashSet;

use idx_mcp::catalog::datasets;
use idx_mcp::catalog::doc_for;
use idx_mcp::catalog::is_allowed_table;
use idx_mcp::catalog::is_safe_table_function;
use idx_mcp::catalog::screen_fields_num;
use idx_mcp::catalog::screen_fields_text;
use idx_mcp::catalog::views;
use idx_mcp::catalog::Kind;
use idx_mcp::catalog::MAX_ROWS;

#[test]
fn names_are_unique() {
    let mut seen = HashSet::new();
    for name in datasets()
        .iter()
        .map(|d| d.name)
        .chain(views().iter().map(|v| v.name))
    {
        assert!(seen.insert(name), "duplicate catalog name: {name}");
    }
}

#[test]
fn allowlist_covers_all_datasets_and_views() {
    for d in datasets() {
        assert!(is_allowed_table(d.name), "{} not allowed", d.name);
        assert!(is_allowed_table(&d.name.to_uppercase()), "case-insensitive");
    }
    for v in views() {
        assert!(is_allowed_table(v.name), "{} not allowed", v.name);
    }
}

#[test]
fn view_requirements_reference_real_datasets() {
    for v in views() {
        for req in &v.requires {
            assert!(
                datasets().iter().any(|d| &d.name == req),
                "view {} requires unknown dataset {req}",
                v.name
            );
        }
    }
}

#[test]
fn unknown_and_function_tables_are_rejected() {
    assert!(!is_allowed_table("read_parquet"));
    assert!(!is_allowed_table("duckdb_settings"));
    assert!(!is_allowed_table("pg_tables"));
    assert!(!is_safe_table_function("read_parquet"));
    assert!(!is_safe_table_function("read_csv_auto"));
    assert!(is_safe_table_function("generate_series"));
}

#[test]
fn every_described_name_is_allowed() {
    for d in datasets() {
        assert_eq!(doc_for(d.name), Some(d.doc));
        assert_eq!(doc_for(&d.name.to_uppercase()), Some(d.doc));
    }
    for v in views() {
        assert_eq!(doc_for(v.name), Some(v.doc));
    }
    assert_eq!(doc_for("read_parquet"), None);
    assert_eq!(doc_for(""), None);
}

#[test]
fn catalog_sizes_and_kinds() {
    assert_eq!(MAX_ROWS, 5000);
    assert_eq!(datasets().len(), 12);
    assert_eq!(views().len(), 3);
    assert_eq!(screen_fields_num().len(), 16);
    assert_eq!(screen_fields_text(), vec!["sector"]);
    let snapshots: Vec<&str> = datasets()
        .iter()
        .filter(|d| matches!(d.kind, Kind::Snapshot))
        .map(|d| d.name)
        .collect();
    assert!(snapshots.contains(&"companies"));
    assert!(!snapshots.contains(&"prices"));
}

#[test]
fn table_functions_ignore_letter_case() {
    assert!(is_safe_table_function("Generate_Series"));
    assert!(is_safe_table_function("UNNEST"));
    assert!(!is_safe_table_function("glob"));
    assert!(!is_safe_table_function(""));
}
