use idx_mcp::cli::command;
use idx_mcp::cli::Command;
use idx_mcp::config::Config;
use idx_mcp::config::DataBase;
use idx_mcp::config::EnvVars;
use idx_mcp::errors::EngineError;
use idx_mcp::etl::clears_data;
use idx_mcp::etl::count_sql;
use idx_mcp::etl::first_line;
use idx_mcp::etl::output_dir;
use idx_mcp::etl::select;
use idx_mcp::etl::Stmt;
use idx_mcp::json::Json;
use idx_mcp::pool::reclaim;
use idx_mcp::pool::settle;
use idx_mcp::pool::Ending;
use idx_mcp::pool::Fate;
use idx_mcp::pool::Pool;
use idx_mcp::pool::Work;
use idx_mcp::schema::columns_sql;
use idx_mcp::schema::describe_relation;
use idx_mcp::schema::relations;
use idx_mcp::schema::Column;
use idx_mcp::schema::Relation;
use idx_mcp::store::adhoc_sql;
use idx_mcp::store::Store;

fn strings(list: &[&str]) -> Vec<String> {
    list.iter().map(|s| s.to_string()).collect()
}

fn unset() -> EnvVars {
    EnvVars {
        bind: None,
        sqlite: None,
        public_url: None,
        data_dir: None,
        r2_account_id: None,
        r2_key_id: None,
        r2_secret: None,
        r2_bucket: None,
    }
}

fn r2() -> EnvVars {
    EnvVars {
        r2_account_id: Some("acc".to_string()),
        r2_key_id: Some("kid".to_string()),
        r2_secret: Some("shh".to_string()),
        r2_bucket: Some("idx-data".to_string()),
        ..unset()
    }
}

// ---- settings ----

#[test]
fn defaults_serve_the_local_data() {
    let cfg = Config::from_env(unset());
    assert_eq!(cfg.bind_addr, "127.0.0.1:8080");
    assert_eq!(cfg.sqlite_path, "./idx.sqlite");
    assert_eq!(cfg.public_url, "http://127.0.0.1:8080");
    assert!(matches!(&cfg.data_base, DataBase::Local(d) if d == "./data"));
    assert_eq!(
        cfg.debug_text(),
        "Config { bind_addr: \"127.0.0.1:8080\", sqlite_path: \"./idx.sqlite\", \
         data_base: Local(\"./data\"), public_url: \"http://127.0.0.1:8080\" }"
    );
}

#[test]
fn a_data_directory_comes_before_r2() {
    let cfg = Config::from_env(EnvVars { data_dir: Some("/d".to_string()), ..r2() });
    assert!(matches!(&cfg.data_base, DataBase::Local(d) if d == "/d"));
    let cfg = Config::from_env(EnvVars { r2_secret: None, ..r2() });
    assert!(matches!(&cfg.data_base, DataBase::Local(d) if d == "./data"));
}

#[test]
fn r2_credentials_never_show() {
    let cfg = Config::from_env(EnvVars {
        bind: Some("0.0.0.0:1".to_string()),
        public_url: Some("https://x//".to_string()),
        sqlite: Some("k.db".to_string()),
        ..r2()
    });
    assert_eq!(cfg.public_url, "https://x");
    match &cfg.data_base {
        DataBase::R2 { base, account_id, key_id, secret } => {
            assert_eq!(base, "r2://idx-data");
            assert_eq!(account_id, "acc");
            assert_eq!(key_id, "kid");
            assert_eq!(secret, "shh");
        }
        DataBase::Local(_) => panic!("not r2"),
    }
    let shown = cfg.debug_text();
    assert_eq!(
        shown,
        "Config { bind_addr: \"0.0.0.0:1\", sqlite_path: \"k.db\", data_base: R2 { \
         base: \"r2://idx-data\", account_id: \"acc\", key_id: \"<redacted>\", \
         secret: \"<redacted>\" }, public_url: \"https://x\" }"
    );
    assert!(!shown.contains("kid") && !shown.contains("shh"));
}

#[test]
fn the_store_lies_where_the_data_is() {
    let opened = Store::open(&Config::from_env(EnvVars {
        data_dir: Some("./data/".to_string()),
        ..unset()
    }));
    assert_eq!(opened.store.base(), "./data");
    assert!(opened.secret_sql.is_none());
    assert_eq!(
        opened.store.parquet_glob("yfdaily", "year=*/*.parquet"),
        "./data/yfdaily/year=*/*.parquet"
    );
    assert_eq!(
        opened.store.query_json("SELECT 1"),
        "SELECT to_json(t)::VARCHAR AS j FROM (SELECT 1) AS t"
    );
    assert_eq!(adhoc_sql("SELECT 1"), "SELECT to_json(t)::VARCHAR FROM (SELECT 1) t");
    let remote = Store::open(&Config::from_env(r2()));
    assert_eq!(remote.store.base(), "r2://idx-data");
    assert_eq!(
        remote.secret_sql.as_deref(),
        Some("CREATE OR REPLACE SECRET r2 (TYPE r2, KEY_ID 'kid', SECRET 'shh', ACCOUNT_ID 'acc');")
    );
}

#[test]
fn the_command_line_asks_for_a_key_or_to_serve() {
    for (args, label) in [
        (vec!["idx-mcp", "keys", "add", "my-agent"], Some("my-agent")),
        (vec!["idx-mcp", "keys", "add"], Some("unnamed")),
        (vec!["idx-mcp", "keys"], None),
        (vec!["idx-mcp", "keys", "list", "x"], None),
        (vec!["idx-mcp"], None),
        (vec![], None),
    ] {
        match (command(&strings(&args)), label) {
            (Command::AddKey(l), Some(want)) => assert_eq!(l, want),
            (Command::Serve, None) => {}
            _ => panic!("wrong command"),
        }
    }
}

// ---- pool ----

#[test]
fn as_many_permits_as_idle_slots() {
    let mut pool = Pool::new(vec!["a", "b", "c"]);
    assert_eq!(pool.permits(), 3);
    assert_eq!(pool.checkout(), Some("c"));
    assert_eq!(pool.checkout(), Some("b"));
    assert_eq!(pool.permits(), 1);
    assert_eq!(pool.lent(), 2);
    pool.checkin("c");
    assert_eq!(pool.permits(), 2);
    pool.forget();
    assert_eq!(pool.permits(), 2);
    assert_eq!(pool.lent(), 0);
    assert_eq!(pool.checkout(), Some("c"));
    assert_eq!(pool.checkout(), Some("a"));
    assert_eq!(pool.checkout(), None);
}

#[test]
fn a_slot_returns_unless_its_task_panicked() {
    let done = settle(Ending::Finished, Work::Query, 15);
    assert!(matches!(done.fate, Fate::Return));
    assert!(done.error.is_none());
    let panicked = settle(Ending::Panicked, Work::Query, 15);
    assert!(matches!(panicked.fate, Fate::Forget));
    assert!(matches!(panicked.error, Some(EngineError::QueryTask)));
    let slow = settle(Ending::TimedOut, Work::Query, 15);
    assert!(matches!(slow.fate, Fate::Reclaim));
    assert!(matches!(slow.error, Some(EngineError::QueryTimeout(15))));
    let described = settle(Ending::Panicked, Work::Describe, 9);
    assert!(matches!(described.error, Some(EngineError::DescribeTask)));
    let slow = settle(Ending::TimedOut, Work::Describe, 9);
    assert!(matches!(slow.error, Some(EngineError::DescribeTimeout(9))));
    assert!(matches!(reclaim(false), Fate::Return));
    assert!(matches!(reclaim(true), Fate::Forget));
}

// ---- schema ----

fn listed(only: Option<&str>) -> Vec<(String, String)> {
    relations(&strings(&["prices", "companies"]), &strings(&["latest"]), only)
        .iter()
        .map(|r| (r.name.clone(), r.kind.to_string()))
        .collect()
}

#[test]
fn tables_then_views_are_described() {
    assert_eq!(
        listed(None),
        vec![
            ("prices".to_string(), "table".to_string()),
            ("companies".to_string(), "table".to_string()),
            ("latest".to_string(), "view".to_string()),
        ]
    );
    assert_eq!(listed(Some("LATEST")), vec![("latest".to_string(), "view".to_string())]);
    assert!(listed(Some("nothing")).is_empty());
    assert_eq!(
        columns_sql("prices"),
        "SELECT column_name, column_type FROM (DESCRIBE \"prices\")"
    );
}

fn text<'a>(j: &'a Json, key: &str) -> &'a str {
    j.text_at(key).unwrap()
}

#[test]
fn a_description_merges_the_catalog_with_the_columns() {
    let columns = vec![
        Column { name: "ticker".to_string(), kind: "VARCHAR".to_string() },
        Column { name: "close".to_string(), kind: "DOUBLE".to_string() },
    ];
    let rel = Relation { name: "prices".to_string(), kind: "table" };
    let j = describe_relation(&rel, &columns);
    assert_eq!(text(&j, "name"), "prices");
    assert_eq!(text(&j, "relation"), "table");
    assert_eq!(Some(text(&j, "description")), idx_mcp::catalog::doc_for("prices"));
    match j.get("columns") {
        Some(Json::Array(items)) => {
            assert_eq!(items.len(), 2);
            assert_eq!(text(&items[1], "name"), "close");
            assert_eq!(text(&items[1], "type"), "DOUBLE");
        }
        _ => panic!("no columns"),
    }
    let unknown = Relation { name: "other".to_string(), kind: "view" };
    assert_eq!(text(&describe_relation(&unknown, &Vec::new()), "description"), "");
}

// ---- export job ----

fn statement(dataset: &str, sql: &str) -> Stmt {
    Stmt { dataset: dataset.to_string(), sql: sql.to_string() }
}

#[test]
fn a_run_includes_the_named_datasets() {
    let all = vec![statement("a", ""), statement("b", ""), statement("a", "")];
    assert_eq!(select(&all, &Vec::new()), vec![0, 1, 2]);
    assert_eq!(select(&all, &strings(&["a", "x"])), vec![0, 2]);
    assert!(select(&all, &strings(&["A"])).is_empty());
    assert!(clears_data(&Vec::new()));
    assert!(!clears_data(&strings(&["a"])));
}

#[test]
fn the_output_depends_on_the_partitioning() {
    assert_eq!(output_dir("prices"), "data/prices");
    assert_eq!(
        count_sql(&statement("prices", "COPY x TO 'y' (PARTITION_BY (date))")),
        "SELECT count(*) FROM read_parquet('data/prices/date=*/*.parquet')"
    );
    assert_eq!(
        count_sql(&statement("companies", "COPY x TO 'y' (partition_by)")),
        "SELECT count(*) FROM read_parquet('data/companies/latest.parquet')"
    );
    assert_eq!(
        count_sql(&statement("p", "PARTITION_BY")),
        "SELECT count(*) FROM read_parquet('data/p/date=*/*.parquet')"
    );
}

#[test]
fn a_failure_is_told_in_one_line() {
    for (message, line) in [
        ("one", "one"),
        ("one\ntwo", "one"),
        ("one\r\ntwo", "one"),
        ("one\r", "one\r"),
        ("\ntwo", ""),
        ("\r\n", ""),
        ("", ""),
    ] {
        assert_eq!(first_line(message), line);
        assert_eq!(first_line(message), message.lines().next().unwrap_or(message));
    }
}
