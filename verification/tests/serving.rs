use idx_mcp::catalog::datasets;
use idx_mcp::catalog::Kind;
use idx_mcp::config::DataBase;
use idx_mcp::serving::instance_dir_name;
use idx_mcp::serving::instance_pid;
use idx_mcp::serving::is_dead_instance;
use idx_mcp::serving::is_serving_file;
use idx_mcp::serving::loaded;
use idx_mcp::serving::max_memory;
use idx_mcp::serving::query_timeout_secs;
use idx_mcp::serving::require_loaded;
use idx_mcp::serving::serving_connections;
use idx_mcp::serving::serving_file_name;
use idx_mcp::serving::serving_threads;
use idx_mcp::serving::view_sql;
use idx_mcp::serving::view_statements;
use idx_mcp::serving::serving_options;
use idx_mcp::serving::Build;
use idx_mcp::serving::BuildError;
use idx_mcp::serving::Builds;
use idx_mcp::serving::Current;
use idx_mcp::serving::ServingEnv;
use idx_mcp::serving::Source;

fn local() -> Source {
    Source::new(&DataBase::Local("./data//".to_string()))
}

fn names(list: &[&str]) -> Vec<String> {
    list.iter().map(|s| s.to_string()).collect()
}

#[test]
fn a_local_source_needs_no_secret() {
    let s = local();
    assert_eq!(s.base, "./data");
    assert!(s.secret_sql.is_none());
    assert_eq!(s.glob("prices", Kind::TimeSeries), "./data/prices/date=*/*.parquet");
    assert_eq!(s.glob("companies", Kind::Snapshot), "./data/companies/latest.parquet");
}

#[test]
fn an_r2_source_brings_its_secret() {
    let s = Source::new(&DataBase::R2 {
        base: "r2://idx-data/".to_string(),
        account_id: "acc".to_string(),
        key_id: "key".to_string(),
        secret: "sec".to_string(),
    });
    assert_eq!(s.base, "r2://idx-data");
    assert_eq!(
        s.secret_sql.as_deref(),
        Some("CREATE OR REPLACE SECRET r2 (TYPE r2, KEY_ID 'key', SECRET 'sec', ACCOUNT_ID 'acc');")
    );
}

#[test]
fn every_dataset_has_its_load_statement() {
    let statements = local().load_statements();
    assert_eq!(statements.len(), datasets().len());
    let prices = statements.iter().find(|s| s.name == "prices").unwrap();
    assert_eq!(
        prices.sql,
        "CREATE OR REPLACE TABLE \"prices\" AS SELECT * FROM \
         read_parquet('./data/prices/date=*/*.parquet', hive_partitioning=true)"
    );
    let companies = statements.iter().find(|s| s.name == "companies").unwrap();
    assert_eq!(
        companies.sql,
        "CREATE OR REPLACE TABLE \"companies\" AS SELECT * FROM \
         read_parquet('./data/companies/latest.parquet')"
    );
}

#[test]
fn only_what_succeeded_is_loaded() {
    let statements = local().load_statements();
    let ok: Vec<bool> = statements.iter().map(|s| s.name == "prices" || s.name == "summary").collect();
    assert_eq!(loaded(&statements, &ok), names(&["prices", "summary"]));
    assert!(require_loaded(&names(&["prices"]), "./data").is_ok());
    assert_eq!(
        require_loaded(&Vec::new(), "./data").unwrap_err().message(),
        "no datasets could be loaded from ./data"
    );
}

#[test]
fn views_are_built_over_loaded_inputs() {
    let all: Vec<String> = datasets().iter().map(|d| d.name.to_string()).collect();
    let built: Vec<String> = view_statements(&all).iter().map(|s| s.name.clone()).collect();
    assert_eq!(built, names(&["latest", "returns", "broker_net"]));
    let some = view_statements(&names(&["prices", "companies"]));
    assert_eq!(some.len(), 1);
    assert_eq!(some[0].name, "returns");
    assert!(some[0].sql.starts_with("CREATE TABLE returns AS\nWITH lc AS (\n"));
    assert!(view_statements(&Vec::new()).is_empty());
    assert!(view_sql("latest").unwrap().starts_with("CREATE TABLE latest AS\n"));
    assert!(view_sql("broker_net").unwrap().ends_with("ORDER BY ticker, date;"));
    assert!(view_sql("Latest").is_none());
}

#[test]
fn settings_are_limited() {
    assert_eq!(serving_connections(None), 8);
    assert_eq!(serving_connections(Some("x")), 8);
    assert_eq!(serving_connections(Some("")), 8);
    assert_eq!(serving_connections(Some("0")), 1);
    assert_eq!(serving_connections(Some("+12")), 12);
    assert_eq!(serving_connections(Some("65")), 64);
    assert_eq!(serving_connections(Some("-1")), 8);
    assert_eq!(serving_connections(Some("99999999999999999999999")), 8);
    assert_eq!(query_timeout_secs(None), 15);
    assert_eq!(query_timeout_secs(Some("90")), 90);
    assert_eq!(query_timeout_secs(Some("0")), 0);
    assert_eq!(query_timeout_secs(Some("18446744073709551615")), u64::MAX);
    assert_eq!(query_timeout_secs(Some("18446744073709551616")), 15);
    assert_eq!(query_timeout_secs(Some("1.5")), 15);
    assert_eq!(max_memory(None), "2GB");
    assert_eq!(max_memory(Some("512MB".to_string())), "512MB");
    assert_eq!(serving_threads(None), 4);
    assert_eq!(serving_threads(Some(1)), 2);
    assert_eq!(serving_threads(Some(8)), 8);
    assert_eq!(serving_threads(Some(128)), 16);
}

#[test]
fn instance_directories_name_their_process() {
    assert_eq!(instance_dir_name(4321, 0), "4321-0");
    assert_eq!(instance_pid("4321-0"), Some(4321));
    for other in ["4321", "4321-", "4321-x", "4321-0-1", "4321-18446744073709551616"] {
        assert_eq!(instance_pid(other), None, "{other}");
    }
    assert_eq!(instance_pid("4321-18446744073709551615"), Some(4321));
    assert_eq!(instance_pid("4294967295-1"), Some(u32::MAX));
    assert_eq!(instance_pid("4294967296-1"), None);
    assert_eq!(instance_pid("cache-1"), None);
    assert_eq!(instance_pid("-1"), None);
    assert_eq!(instance_pid(""), None);
    assert_ne!(instance_dir_name(1, 23), instance_dir_name(12, 3));
    assert_ne!(instance_dir_name(1, 2), instance_dir_name(1, 3));
    assert!(is_dead_instance(1, 2, false));
    assert!(!is_dead_instance(1, 2, true));
    assert!(!is_dead_instance(2, 2, false));
}

#[test]
fn serving_files_are_recognised() {
    assert_eq!(serving_file_name(0), "serving-0.duckdb");
    assert_eq!(serving_file_name(u64::MAX), "serving-18446744073709551615.duckdb");
    assert_ne!(serving_file_name(1), serving_file_name(10));
    for v in [0, 9, 10, 1234567890] {
        assert!(is_serving_file(&serving_file_name(v)));
    }
    for other in ["serving-0.duckdb.wal", "xserving-0.duckdb", "serving-0.db", ""] {
        assert!(!is_serving_file(other), "{other}");
    }
}

#[test]
fn the_loader_is_set_up_before_it_loads() {
    assert_eq!(local().setup_statements(), names(&["SET threads TO 4;"]));
    let remote = Source { base: "r2://b".to_string(), secret_sql: Some("CREATE SECRET".to_string()) };
    assert_eq!(remote.setup_statements(), names(&["SET threads TO 4;", "CREATE SECRET"]));
    let statements = local().load_statements();
    assert!(loaded(&statements, &vec![false, true])[0] == statements[1].name);
}

#[test]
fn the_serving_database_is_always_locked() {
    for connections in [None, Some("3".to_string()), Some("1000".to_string())] {
        let o = serving_options(ServingEnv {
            connections: connections.clone(),
            max_memory: Some("1GB".to_string()),
            parallelism: Some(6),
        });
        assert!(o.read_only && !o.external_access && !o.autoload_extension);
        assert_eq!(o.lock_sql, "SET lock_configuration = true;");
        assert_eq!(o.max_memory, "1GB");
        assert_eq!(o.threads, 6);
        assert_eq!(o.connections, serving_connections(connections.as_deref()));
    }
}

#[test]
fn rebuilds_count_on_from_the_boot_build() {
    let mut builds = Builds::new();
    assert_eq!(builds.begin(), 0);
    assert_eq!(builds.begin(), 1);
    assert_eq!(builds.begin(), 2);
}

fn build(database: u8, tables: &[&str]) -> Build<u8> {
    Build { database, tables: names(tables), views: names(&["returns"]) }
}

#[test]
fn an_empty_or_failed_boot_build_is_not_served() {
    match Current::start(Ok(build(0, &[])), "./data") {
        Err(BuildError::Empty(e)) => {
            assert_eq!(e.message(), "no datasets could be loaded from ./data");
        }
        _ => panic!("expected a refusal"),
    }
    match Current::<u8>::start(Err("disk full".to_string()), "./data") {
        Err(BuildError::Failed(reason)) => assert_eq!(reason, "disk full"),
        _ => panic!("expected a refusal"),
    }
}

#[test]
fn a_failed_rebuild_keeps_the_data() {
    let mut current = Current::start(Ok(build(1, &["prices"])), "./data").unwrap();
    assert!(matches!(
        current.rebuild(Err("disk full".to_string()), "./data"),
        Err(BuildError::Failed(_))
    ));
    assert!(matches!(current.rebuild(Ok(build(2, &[])), "./data"), Err(BuildError::Empty(_))));
    assert_eq!(*current.database(), 1);
    assert_eq!(*current.tables(), names(&["prices"]));

    let retired = current.rebuild(Ok(build(3, &["prices", "companies"])), "./data").unwrap();
    assert_eq!(retired.database, 1);
    assert_eq!(retired.tables, names(&["prices"]));
    assert_eq!(*current.database(), 3);
    assert_eq!(*current.tables(), names(&["prices", "companies"]));
    assert_eq!(*current.views(), names(&["returns"]));
}
