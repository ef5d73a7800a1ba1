use idx_mcp::analytics::collect_json;
use idx_mcp::analytics::finish_query;
use idx_mcp::analytics::params_sql;
use idx_mcp::analytics::parse_probe;
use idx_mcp::analytics::prepare_query;
use idx_mcp::analytics::release;
use idx_mcp::errors::EngineError;
use idx_mcp::json::Json;
use idx_mcp::vet::validate;

/// A table in a FROM clause, as the parser writes it.
fn base_table(name: &str) -> String {
    format!(
        "{{\"type\":\"BASE_TABLE\",\"alias\":\"\",\"sample\":null,\"schema_name\":\"\",\
         \"table_name\":\"{name}\",\"column_name_alias\":[],\"catalog_name\":\"\"}}"
    )
}

/// A table function in a FROM clause, as the parser writes it.
fn table_function(name: &str) -> String {
    format!(
        "{{\"type\":\"TABLE_FUNCTION\",\"alias\":\"\",\"sample\":null,\"function\":\
         {{\"class\":\"FUNCTION\",\"type\":\"FUNCTION\",\"function_name\":\"{name}\",\
         \"schema\":\"\",\"children\":[]}},\"column_name_alias\":[]}}"
    )
}

/// A SELECT node over a FROM clause.
fn select(from: &str, ctes: &str) -> String {
    format!(
        "{{\"node\":{{\"type\":\"SELECT_NODE\",\"modifiers\":[],\"cte_map\":{{\"map\":[{ctes}]}},\
         \"select_list\":[{{\"class\":\"STAR\",\"type\":\"STAR\",\"alias\":\"\"}}],\
         \"from_table\":{from},\"where_clause\":null,\"group_sets\":[]}}}}"
    )
}

fn parsed(statements: &[String]) -> String {
    format!("{{\"error\":false,\"statements\":[{}]}}", statements.join(","))
}

fn refused(message: &str) -> String {
    format!("{{\"error\":true,\"error_type\":\"parser\",\"error_message\":\"{message}\"}}")
}

/// What the engine's parser answers to each query below.
fn answer(sql: &str) -> String {
    let not_select = refused("Only SELECT statements can be serialized to json!");
    match sql {
        "SELECT ticker, close FROM eod_summary LIMIT 5" => {
            parsed(&[select(&base_table("eod_summary"), "")])
        }
        "SELECT * FROM latest WHERE market_cap > 1e12" => {
            parsed(&[select(&base_table("latest"), "")])
        }
        "WITH x AS (SELECT ticker FROM eod_summary) SELECT * FROM x JOIN companies USING(ticker)" => {
            let cte = format!(
                "{{\"key\":\"x\",\"value\":{{\"aliases\":[],\"query\":{}}}}}",
                select(&base_table("eod_summary"), "")
            );
            let join = format!(
                "{{\"type\":\"JOIN\",\"left\":{},\"right\":{},\"using_columns\":[\"ticker\"]}}",
                base_table("x"),
                base_table("companies")
            );
            parsed(&[select(&join, &cte)])
        }
        "SELECT ticker, ret_1y FROM returns ORDER BY ret_1y DESC" => {
            parsed(&[select(&base_table("returns"), "")])
        }
        "SELECT * FROM generate_series(1, 5)" => {
            parsed(&[select(&table_function("generate_series"), "")])
        }
        "SELECT * FROM read_parquet('x.parquet')" => {
            parsed(&[select(&table_function("read_parquet"), "")])
        }
        "SELECT * FROM read_csv('x.csv')" => parsed(&[select(&table_function("read_csv"), "")]),
        "SELECT 1; SELECT 2" => {
            let empty = "{\"type\":\"EMPTY\",\"alias\":\"\"}";
            parsed(&[select(empty, ""), select(empty, "")])
        }
        "SELECT * FROM duckdb_settings()" => {
            parsed(&[select(&table_function("duckdb_settings"), "")])
        }
        "SELECT * FROM no_such_table" => parsed(&[select(&base_table("no_such_table"), "")]),
        "SELECT * FROM pg_tables" => parsed(&[select(&base_table("pg_tables"), "")]),
        "not valid sql" => refused("syntax error at or near \\\"not\\\""),
        _ => not_select,
    }
}

#[test]
fn validate_accepts_allowed_selects() {
    for sql in [
        "SELECT ticker, close FROM eod_summary LIMIT 5",
        "SELECT * FROM latest WHERE market_cap > 1e12",
        "WITH x AS (SELECT ticker FROM eod_summary) SELECT * FROM x JOIN companies USING(ticker)",
        "SELECT ticker, ret_1y FROM returns ORDER BY ret_1y DESC",
        "SELECT * FROM generate_series(1, 5)",
    ] {
        assert!(validate(Some(&answer(sql))).is_ok(), "should accept: {sql}");
    }
}

#[test]
fn validate_rejects_dangerous_or_unknown() {
    for sql in [
        "SELECT * FROM read_parquet('x.parquet')",
        "SELECT * FROM read_csv('x.csv')",
        "DROP TABLE eod_summary",
        "INSERT INTO eod_summary VALUES (1)",
        "UPDATE eod_summary SET close = 0",
        "ATTACH 'x.db' AS y",
        "COPY eod_summary TO 'x.csv'",
        "PRAGMA database_list",
        "SELECT 1; SELECT 2",
        "SELECT * FROM duckdb_settings()",
        "SELECT * FROM no_such_table",
        "SELECT * FROM pg_tables",
        "not valid sql",
    ] {
        assert!(validate(Some(&answer(sql))).is_err(), "should reject: {sql}");
    }
}

fn message(r: Result<(), EngineError>) -> String {
    match r {
        Ok(()) => panic!("expected a refusal"),
        Err(e) => e.message(),
    }
}

#[test]
fn every_refusal_says_why() {
    assert_eq!(message(validate(None)), "parse query");
    assert_eq!(message(validate(Some("no json"))), "read parsed ast");
    assert_eq!(
        message(validate(Some(&answer("DROP TABLE eod_summary")))),
        "only a single read-only SELECT is allowed: Only SELECT statements can be serialized to json!"
    );
    assert_eq!(
        message(validate(Some("{\"error\":true}"))),
        "only a single read-only SELECT is allowed: invalid SQL"
    );
    assert_eq!(message(validate(Some("{\"error\":false}"))), "could not parse query");
    assert_eq!(
        message(validate(Some(&answer("SELECT 1; SELECT 2")))),
        "exactly one statement is allowed (got 2)"
    );
    assert_eq!(
        message(validate(Some("{\"statements\":[]}"))),
        "exactly one statement is allowed (got 0)"
    );
    assert_eq!(
        message(validate(Some(&answer("SELECT * FROM duckdb_settings()")))),
        "table function not allowed: duckdb_settings"
    );
    assert_eq!(
        message(validate(Some(&answer("SELECT * FROM no_such_table")))),
        "unknown or disallowed table: no_such_table"
    );
}

#[test]
fn the_least_foreign_table_is_named_in_lower_case() {
    let join = format!(
        "{{\"type\":\"JOIN\",\"left\":{},\"right\":{}}}",
        base_table("Zebra"),
        base_table("Apple")
    );
    assert_eq!(
        message(validate(Some(&parsed(&[select(&join, "")])))),
        "unknown or disallowed table: apple"
    );
}

#[test]
fn a_forbidden_function_is_found_anywhere() {
    let subquery = format!(
        "{{\"type\":\"SUBQUERY\",\"subquery\":{}}}",
        select(&table_function("read_csv_auto"), "")
    );
    assert_eq!(
        message(validate(Some(&parsed(&[select(&subquery, "")])))),
        "table function not allowed: read_csv_auto"
    );
}

#[test]
fn a_declared_name_shadows_no_other_table() {
    let cte = format!(
        "{{\"key\":\"X\",\"value\":{{\"aliases\":[],\"query\":{}}}}}",
        select(&base_table("secrets"), "")
    );
    assert_eq!(
        message(validate(Some(&parsed(&[select(&base_table("x"), &cte)])))),
        "unknown or disallowed table: secrets"
    );
}

/// One declaration of a WITH clause, over a query.
fn cte(name: &str, query: &str) -> String {
    format!("{{\"key\":\"{name}\",\"value\":{{\"aliases\":[],\"query\":{query}}}}}")
}

/// A table under a schema, or under a catalog.
fn qualified(catalog: &str, schema: &str, name: &str) -> String {
    format!(
        "{{\"type\":\"BASE_TABLE\",\"alias\":\"\",\"schema_name\":\"{schema}\",\
         \"table_name\":\"{name}\",\"catalog_name\":\"{catalog}\"}}"
    )
}

/// The query of a recursive declaration.
fn recursive(name: &str, left: &str, right: &str) -> String {
    format!(
        "{{\"node\":{{\"type\":\"RECURSIVE_CTE_NODE\",\"modifiers\":[],\
         \"cte_map\":{{\"map\":[]}},\"cte_name\":\"{name}\",\"union_all\":true,\
         \"left\":{left},\"right\":{right}}}}}"
    )
}

#[test]
fn an_inner_declaration_does_not_reach_the_outer_query() {
    // SELECT * FROM pg_tables, (WITH pg_tables AS (...) SELECT * FROM pg_tables)
    let own = cte("pg_tables", &select(&base_table("latest"), ""));
    let inner = format!(
        "{{\"type\":\"SUBQUERY\",\"subquery\":{}}}",
        select(&base_table("pg_tables"), &own)
    );
    assert!(validate(Some(&parsed(&[select(&inner, "")]))).is_ok());
    let join = format!(
        "{{\"type\":\"JOIN\",\"left\":{},\"right\":{inner}}}",
        base_table("pg_tables")
    );
    assert_eq!(
        message(validate(Some(&parsed(&[select(&join, "")])))),
        "unknown or disallowed table: pg_tables"
    );
}

#[test]
fn a_declared_name_does_not_stand_for_a_qualified_table() {
    let own = cte("pg_tables", &select(&base_table("latest"), ""));
    assert!(validate(Some(&parsed(&[select(&base_table("PG_TABLES"), &own)]))).is_ok());
    for table in [
        qualified("", "pg_catalog", "pg_tables"),
        qualified("system", "", "pg_tables"),
        qualified("system", "pg_catalog", "pg_tables"),
    ] {
        assert_eq!(
            message(validate(Some(&parsed(&[select(&table, &own)])))),
            "unknown or disallowed table: pg_tables"
        );
    }
}

#[test]
fn a_declaration_sees_the_earlier_ones_only() {
    let a = cte("a", &select(&base_table("latest"), ""));
    let b = cte("b", &select(&base_table("a"), ""));
    let in_order = format!("{a},{b}");
    assert!(validate(Some(&parsed(&[select(&base_table("b"), &in_order)]))).is_ok());
    let reversed = format!("{b},{a}");
    assert_eq!(
        message(validate(Some(&parsed(&[select(&base_table("b"), &reversed)])))),
        "unknown or disallowed table: a"
    );
    let itself = cte("pg_tables", &select(&base_table("pg_tables"), ""));
    assert_eq!(
        message(validate(Some(&parsed(&[select(&base_table("pg_tables"), &itself)])))),
        "unknown or disallowed table: pg_tables"
    );
}

#[test]
fn a_recursive_declaration_sees_itself_where_it_recurs() {
    let start = select(&base_table("latest"), "");
    let again = select(&base_table("t"), "");
    let good = cte("t", &recursive("t", &start, &again));
    assert!(validate(Some(&parsed(&[select(&base_table("t"), &good)]))).is_ok());
    // The name is its own declaration's only.
    let undeclared = recursive("t", &start, &again);
    assert_eq!(message(validate(Some(&parsed(&[undeclared])))), "unknown or disallowed table: t");
    let renamed = cte("u", &recursive("t", &start, &again));
    assert_eq!(
        message(validate(Some(&parsed(&[select(&base_table("u"), &renamed)])))),
        "unknown or disallowed table: t"
    );
    let bad = cte("t", &recursive("t", &again, &start));
    assert_eq!(
        message(validate(Some(&parsed(&[select(&base_table("t"), &bad)])))),
        "unknown or disallowed table: t"
    );
}

#[test]
fn the_rows_so_far_of_a_recursive_declaration_have_a_schema_of_their_own() {
    let start = select(&base_table("latest"), "");
    for schema in ["recurring", "RECURRING"] {
        let again = select(&qualified("", schema, "T"), "");
        let good = cte("t", &recursive("t", &start, &again));
        assert!(validate(Some(&parsed(&[select(&base_table("t"), &good)]))).is_ok());
        for bad in [
            cte("t", &recursive("t", &again, &start)),
            cte("t", &recursive("t", &start, &select(&qualified("db", schema, "t"), ""))),
            cte("t", &recursive("t", &start, &select(&qualified("", "other", "t"), ""))),
            cte("t", &again),
        ] {
            assert_eq!(
                message(validate(Some(&parsed(&[select(&base_table("t"), &bad)])))),
                "unknown or disallowed table: t"
            );
        }
        let outside = select(&qualified("", schema, "t"), &good);
        assert_eq!(
            message(validate(Some(&parsed(&[outside])))),
            "unknown or disallowed table: t"
        );
    }
}

#[test]
fn an_outer_declaration_reaches_the_queries_below() {
    let own = cte("x", &select(&base_table("latest"), ""));
    let below = format!(
        "{{\"type\":\"SUBQUERY\",\"subquery\":{}}}",
        select(&base_table("x"), &cte("y", &select(&base_table("x"), "")))
    );
    assert!(validate(Some(&parsed(&[select(&below, &own)]))).is_ok());
}

#[test]
fn queries_are_cleaned_and_bounded() {
    let q = prepare_query("  SELECT 1 ;; \n", None).unwrap();
    assert_eq!(q.sql, "SELECT 1");
    assert_eq!(q.cap, 5000);
    assert_eq!(prepare_query("SELECT 1", Some(7)).unwrap().cap, 7);
    assert_eq!(prepare_query("SELECT 1", Some(0)).unwrap().cap, 1);
    assert_eq!(prepare_query("SELECT 1", Some(9999)).unwrap().cap, 5000);
    assert_eq!(prepare_query(" ; ", None).unwrap_err().message(), "empty query");
}

#[test]
fn the_probe_quotes_the_query() {
    assert_eq!(
        parse_probe("SELECT 'a' FROM t"),
        "SELECT json_serialize_sql('SELECT ''a'' FROM t')"
    );
    assert_eq!(parse_probe(""), "SELECT json_serialize_sql('')");
}

#[test]
fn only_a_vetted_query_is_released() {
    let q = prepare_query("SELECT ticker, close FROM eod_summary LIMIT 5", Some(10)).unwrap();
    let good = answer(&q.sql);
    assert_eq!(
        release(&q, Some(&good)).unwrap(),
        "SELECT to_json(t)::VARCHAR AS j FROM (SELECT ticker, close FROM eod_summary LIMIT 5) \
         AS t LIMIT 11"
    );
    let bad = answer("SELECT * FROM no_such_table");
    assert_eq!(
        release(&q, Some(&bad)).unwrap_err().message(),
        "unknown or disallowed table: no_such_table"
    );
    assert!(release(&q, None).is_err());
}

#[test]
fn bound_statements_are_wrapped() {
    assert_eq!(
        params_sql("SELECT 1"),
        "SELECT to_json(t)::VARCHAR AS j FROM (SELECT 1) AS t"
    );
}

#[test]
fn rows_are_read_in_order_until_the_first_failure() {
    let rows = vec![Some("{\"a\":1}".to_string()), Some("[true,null,\"x\"]".to_string())];
    let read = collect_json(&rows).unwrap();
    assert_eq!(read.len(), 2);
    match read[0].get("a") {
        Some(Json::Number(n)) => assert_eq!(n, "1"),
        _ => panic!("no number"),
    }
    match &read[1] {
        Json::Array(items) => {
            assert!(matches!(items[0], Json::Bool(true)));
            assert!(matches!(items[1], Json::Null));
            assert_eq!(items[2].text().map(|s| s.as_str()), Some("x"));
        }
        _ => panic!("no array"),
    }
    let unread = vec![Some("1".to_string()), None, Some("no json".to_string())];
    assert_eq!(collect_json(&unread).unwrap_err().message(), "read row");
    let broken = vec![Some("1".to_string()), Some("no json".to_string()), None];
    assert_eq!(collect_json(&broken).unwrap_err().message(), "parse row json");
}

fn rows(n: usize) -> Vec<Json> {
    (0..n).map(|i| Json::Number(i.to_string())).collect()
}

#[test]
fn the_row_cap_truncates_and_tells() {
    let cut = finish_query(rows(6), 5);
    assert_eq!(cut.rows.len(), 5);
    assert!(cut.truncated);
    match &cut.rows[4] {
        Json::Number(n) => assert_eq!(n, "4"),
        _ => panic!("no number"),
    }
    let whole = finish_query(rows(5), 5);
    assert_eq!(whole.rows.len(), 5);
    assert!(!whole.truncated);
    assert_eq!(finish_query(rows(0), 5).rows.len(), 0);
}

#[test]
fn engine_failures_have_their_texts() {
    for (e, text) in [
        (EngineError::QueryTask, "query task failed"),
        (EngineError::QueryTimeout(15), "query exceeded the 15s time limit"),
        (EngineError::DescribeTask, "describe task failed"),
        (EngineError::DescribeTimeout(0), "describe exceeded the 0s time limit"),
        (EngineError::PoolClosed, "serving pool closed"),
        (EngineError::PrepareQuery, "prepare query"),
        (EngineError::ExecuteQuery, "execute query"),
        (EngineError::DescribeRelation, "describe relation"),
        (EngineError::ReadColumns, "read columns"),
        (EngineError::ColumnRow, "column row"),
        (
            EngineError::NoDatasets("./data".to_string()),
            "no datasets could be loaded from ./data",
        ),
    ] {
        assert_eq!(e.message(), text);
    }
}
