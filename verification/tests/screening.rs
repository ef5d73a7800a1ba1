use idx_mcp::json::Json;
use idx_mcp::screen::build_screen;
use idx_mcp::screen::compose_screen;
use idx_mcp::screen::screen_term;
use idx_mcp::screen::ScreenFilter;
use idx_mcp::screen::ScreenReq;
use idx_mcp::screen::ScreenSort;
use idx_mcp::tools::Plan;
use idx_mcp::tools::ToolError;

fn number(n: &str) -> Json {
    Json::Number(n.to_string())
}

fn text(s: &str) -> Json {
    Json::Text(s.to_string())
}

fn filter(field: &str, op: &str, value: Json) -> ScreenFilter {
    ScreenFilter { field: field.to_string(), op: op.to_string(), value }
}

fn sort(field: &str, desc: Option<bool>) -> Option<ScreenSort> {
    Some(ScreenSort { field: field.to_string(), desc })
}

fn screen(filters: Vec<ScreenFilter>) -> Result<Plan, ToolError> {
    build_screen(ScreenReq { filters, sort: None, limit: None })
}

fn refusal(r: Result<Plan, ToolError>) -> String {
    match r {
        Err(ToolError::InvalidParams(m)) => m,
        _ => panic!("expected a refusal"),
    }
}

#[test]
fn an_empty_screen_lists_the_largest_companies() {
    let plan = screen(vec![]).unwrap();
    assert_eq!(
        plan.sql,
        "SELECT * FROM latest ORDER BY market_cap DESC NULLS LAST LIMIT 50"
    );
    assert!(plan.params.is_empty());
}

#[test]
fn filters_are_bound_in_order() {
    let plan = build_screen(ScreenReq {
        filters: vec![
            filter("Market_Cap", ">", number("1e12")),
            filter("beta", "BETWEEN", Json::Array(vec![number("0.5"), text("1.25")])),
            filter("SECTOR", "in", Json::Array(vec![text("Energy"), text("Financials")])),
            filter("sector", "=", text("it's")),
        ],
        sort: sort("Beta", Some(false)),
        limit: Some(10),
    })
    .unwrap();
    assert_eq!(
        plan.sql,
        "SELECT * FROM latest WHERE \"market_cap\" > CAST(? AS DOUBLE) AND \"beta\" BETWEEN \
         CAST(? AS DOUBLE) AND CAST(? AS DOUBLE) AND \"sector\" IN (?, ?) AND \"sector\" = ? \
         ORDER BY \"beta\" ASC NULLS LAST LIMIT 10"
    );
    assert_eq!(
        plan.params,
        vec!["1000000000000", "0.5", "1.25", "Energy", "Financials", "it's"]
    );
}

#[test]
fn every_comparison_is_written_as_asked() {
    for op in ["=", "!=", "<", "<=", ">", ">="] {
        let plan = screen(vec![filter("close", op, number("5"))]).unwrap();
        assert_eq!(
            plan.sql,
            format!(
                "SELECT * FROM latest WHERE \"close\" {op} CAST(? AS DOUBLE) \
                 ORDER BY market_cap DESC NULLS LAST LIMIT 50"
            )
        );
        assert_eq!(plan.params, vec!["5"]);
    }
}

#[test]
fn numbers_are_bound_at_double_precision() {
    for (written, bound) in [
        ("5.0", "5"),
        ("-0.10", "-0.1"),
        ("1e3", "1000"),
        ("31.245270191439438", "31.245270191439438"),
        ("0.1", "0.1"),
        ("18446744073709551615", "18446744073709552000"),
        ("0.1", "0.1"),
    ] {
        let plan = screen(vec![filter("close", "=", number(written))]).unwrap();
        assert_eq!(plan.params, vec![bound]);
    }
    assert_eq!(
        refusal(screen(vec![filter("close", "=", number("many"))])),
        "expected a number"
    );
}

#[test]
fn texts_that_write_numbers_are_bound_unchanged() {
    for s in ["1e5", "+.5", "-3.", "inf", "NaN", "-Infinity"] {
        let plan = screen(vec![filter("close", "<", text(s))]).unwrap();
        assert_eq!(plan.params, vec![s]);
    }
    for s in ["", "1 OR 1=1", "0x10", "1,5", "e5", ".", " 1"] {
        assert_eq!(refusal(screen(vec![filter("close", "<", text(s))])), "expected a number");
    }
}

#[test]
fn refusals_of_values() {
    assert_eq!(
        refusal(screen(vec![filter("close", "=", Json::Null)])),
        "expected a number"
    );
    assert_eq!(
        refusal(screen(vec![filter("close", "between", number("1"))])),
        "between needs a [low, high] array"
    );
    assert_eq!(
        refusal(screen(vec![filter("close", "between", Json::Array(vec![number("1")]))])),
        "between needs a [low, high] array"
    );
    assert_eq!(
        refusal(screen(vec![filter(
            "close",
            "between",
            Json::Array(vec![number("1"), Json::Bool(true)])
        )])),
        "expected a number"
    );
    assert_eq!(
        refusal(screen(vec![filter("sector", "=", number("1"))])),
        "sector = needs a string"
    );
    assert_eq!(
        refusal(screen(vec![filter("sector", "in", Json::Array(vec![]))])),
        "in needs a non-empty array"
    );
    assert_eq!(
        refusal(screen(vec![filter("sector", "in", text("Energy"))])),
        "in needs a non-empty array"
    );
    assert_eq!(
        refusal(screen(vec![filter(
            "sector",
            "in",
            Json::Array(vec![text("Energy"), number("1")])
        )])),
        "in values must be strings"
    );
}

#[test]
fn refusals_of_fields_and_operators() {
    assert_eq!(
        refusal(screen(vec![filter("Password", "=", number("1"))])),
        "not a screenable field: Password"
    );
    assert_eq!(
        refusal(screen(vec![filter("Close", "LIKE", number("1"))])),
        "operator 'like' not allowed on numeric field close"
    );
    assert_eq!(
        refusal(screen(vec![filter("Sector", "<", text("x"))])),
        "operator '<' not allowed on field sector"
    );
    let r = build_screen(ScreenReq {
        filters: vec![],
        sort: sort("Name; DROP", None),
        limit: None,
    });
    assert_eq!(refusal(r), "not a sortable field: Name; DROP");
}

#[test]
fn the_first_refused_filter_is_told_before_the_sort() {
    let r = build_screen(ScreenReq {
        filters: vec![
            filter("close", ">", number("1")),
            filter("first", ">", number("1")),
            filter("second", ">", number("1")),
        ],
        sort: sort("third", None),
        limit: None,
    });
    assert_eq!(refusal(r), "not a screenable field: first");
}

#[test]
fn rows_are_sorted_descending_by_default_and_capped() {
    let plan = build_screen(ScreenReq {
        filters: vec![],
        sort: sort("SECTOR", None),
        limit: Some(100_000),
    })
    .unwrap();
    assert_eq!(
        plan.sql,
        "SELECT * FROM latest ORDER BY \"sector\" DESC NULLS LAST LIMIT 5000"
    );
}

#[test]
fn values_leave_the_statement_alone_and_fill_every_hole() {
    let a = screen(vec![filter("close", ">", number("1"))]).unwrap();
    let b = screen(vec![filter("close", ">", text("inf"))]).unwrap();
    assert_eq!(a.sql, b.sql);
    assert_eq!(a.sql.matches('?').count(), a.params.len());
}

#[test]
fn a_composed_screen_binds_its_numbers_unread() {
    let filters = vec![filter("close", ">", number("5.0"))];
    let plan = compose_screen(&filters, &None, Some(1)).unwrap();
    assert_eq!(plan.params, vec!["5.0"]);
    let term = screen_term(&filters[0]).unwrap();
    assert_eq!(term.clause, "\"close\" > CAST(? AS DOUBLE)");
    assert_eq!(term.params, vec!["5.0"]);
}
