use idx_mcp::analytics::QueryOutput;
use idx_mcp::errors::EngineError;
use idx_mcp::json::Json;
use idx_mcp::tools::company_answer;
use idx_mcp::tools::ensure_date;
use idx_mcp::tools::first_row;
use idx_mcp::tools::get_announcements;
use idx_mcp::tools::get_broker_activity;
use idx_mcp::tools::get_company;
use idx_mcp::tools::get_ownership;
use idx_mcp::tools::get_prices;
use idx_mcp::tools::mcp_err;
use idx_mcp::tools::push_date_range;
use idx_mcp::tools::query_answer;
use idx_mcp::tools::query_limit;
use idx_mcp::tools::row_limit;
use idx_mcp::tools::search_tickers;
use idx_mcp::tools::user_err;
use idx_mcp::tools::AnnouncementsReq;
use idx_mcp::tools::PricesReq;
use idx_mcp::tools::RangeReq;
use idx_mcp::tools::RunQueryReq;
use idx_mcp::tools::SearchTickersReq;
use idx_mcp::tools::TickerReq;
use idx_mcp::tools::ToolError;

fn some(s: &str) -> Option<String> {
    Some(s.to_string())
}

fn prices(from: Option<String>, to: Option<String>, source: Option<String>) -> PricesReq {
    PricesReq { ticker: "BBCA".to_string(), from, to, source }
}

fn refusal<T>(r: Result<T, ToolError>) -> String {
    match r {
        Err(ToolError::InvalidParams(m)) => m,
        _ => panic!("expected a refusal"),
    }
}

#[test]
fn tickers_are_searched_by_substring() {
    let plan = search_tickers(&SearchTickersReq { query: "ban'k".to_string(), limit: None });
    assert_eq!(
        plan.sql,
        "SELECT ticker, company_name, sector, exchange FROM companies \
         WHERE ticker ILIKE ? OR company_name ILIKE ? LIMIT 20"
    );
    assert_eq!(plan.params, vec!["%ban'k%", "%ban'k%"]);
    let capped = search_tickers(&SearchTickersReq { query: String::new(), limit: Some(6000) });
    assert!(capped.sql.ends_with(" LIMIT 5000"));
    assert_eq!(capped.params, vec!["%%", "%%"]);
}

#[test]
fn row_limits() {
    assert_eq!(row_limit(None, 20), 20);
    assert_eq!(row_limit(Some(0), 20), 0);
    assert_eq!(row_limit(Some(5000), 20), 5000);
    assert_eq!(row_limit(Some(5001), 20), 5000);
    assert_eq!(query_limit(&RunQueryReq { sql: String::new(), limit: Some(9) }), Some(9));
    assert_eq!(query_limit(&RunQueryReq { sql: String::new(), limit: None }), None);
}

#[test]
fn a_company_takes_three_statements() {
    let plans = get_company(&TickerReq { ticker: "BBCA".to_string() });
    assert_eq!(
        plans.profile.sql,
        "SELECT ticker, company_name, sector, sub_sector, exchange, country, status, \
         instrument_type, listing_board, ipo_date, company_background \
         FROM companies WHERE ticker = ? LIMIT 1"
    );
    assert_eq!(
        plans.key_stats.sql,
        "SELECT ticker, date, market_cap, enterprise_value, shares_outstanding, \
         free_float_pct, latest_dividend, latest_dividend_year \
         FROM fundamentals WHERE ticker = ? ORDER BY date DESC LIMIT 1"
    );
    assert_eq!(
        plans.summary.sql,
        "SELECT ticker, name, market_cap, trailing_pe, forward_pe, price_to_book, \
         dividend_yield, beta, return_on_equity, profit_margins, week_high_52, \
         week_low_52, target_mean_price, recommendation_key \
         FROM summary WHERE ticker = ? LIMIT 1"
    );
    for plan in [&plans.profile, &plans.key_stats, &plans.summary] {
        assert_eq!(plan.params, vec!["BBCA"]);
    }
}

#[test]
fn prices_come_from_yahoo_or_the_exchange() {
    let yahoo = get_prices(&prices(None, None, None)).unwrap();
    assert_eq!(
        yahoo.sql,
        "SELECT ticker, date, open, high, low, close, volume, dividends, splits FROM prices \
         WHERE ticker = ? ORDER BY date LIMIT 5000"
    );
    assert_eq!(yahoo.params, vec!["BBCA"]);
    let other = get_prices(&prices(None, None, some("IDX"))).unwrap();
    assert_eq!(other.sql, yahoo.sql);
    let official = get_prices(&prices(some("2025-01-02"), some("2025-12-31"), some("idx"))).unwrap();
    assert_eq!(
        official.sql,
        "SELECT ticker, date, open, high, low, close, previous, change, volume, value, \
         frequency, foreign_buy, foreign_sell FROM eod_summary WHERE ticker = ? \
         AND date >= '2025-01-02' AND date <= '2025-12-31' ORDER BY date LIMIT 5000"
    );
}

#[test]
fn broker_activity_and_ownership() {
    let plan = get_broker_activity(&RangeReq {
        ticker: "BBRI".to_string(),
        from: None,
        to: some("2025-02-28"),
    })
    .unwrap();
    assert_eq!(
        plan.sql,
        "SELECT ticker, date, broker_code, side, volume_lot, value, frequency, \
         avg_price, domicile FROM broker_activity WHERE ticker = ? \
         AND date <= '2025-02-28' ORDER BY date, value DESC LIMIT 5000"
    );
    assert_eq!(plan.params, vec!["BBRI"]);
    let owners = get_ownership(&TickerReq { ticker: "BBRI".to_string() });
    assert_eq!(
        owners.sql,
        "SELECT ticker, date, name, type, classification, local_foreign, total_shares, \
         percentage FROM ownership WHERE ticker = ? ORDER BY percentage DESC LIMIT 5000"
    );
    assert_eq!(owners.params, vec!["BBRI"]);
}

#[test]
fn announcements_may_be_of_one_ticker() {
    let all = get_announcements(&AnnouncementsReq {
        ticker: None,
        from: None,
        to: None,
        limit: None,
    })
    .unwrap();
    assert_eq!(
        all.sql,
        "SELECT ticker, date, source, title, subject, announcement_type, \
         announcement_no, published_at FROM announcements WHERE 1=1 ORDER BY date DESC LIMIT 50"
    );
    assert!(all.params.is_empty());
    let one = get_announcements(&AnnouncementsReq {
        ticker: some("TLKM"),
        from: some("2024-06-01"),
        to: None,
        limit: Some(3),
    })
    .unwrap();
    assert_eq!(
        one.sql,
        "SELECT ticker, date, source, title, subject, announcement_type, \
         announcement_no, published_at FROM announcements WHERE 1=1 AND ticker = ? \
         AND date >= '2024-06-01' ORDER BY date DESC LIMIT 3"
    );
    assert_eq!(one.params, vec!["TLKM"]);
}

#[test]
fn dates_are_checked_before_they_are_written() {
    for good in ["2025-01-01", "0000-12-31", "9999-02-31"] {
        assert!(ensure_date(good).is_ok(), "{good}");
    }
    for bad in [
        "2025-13-01",
        "2025-00-10",
        "2025-01-32",
        "2025-01-00",
        "2025-1-01",
        "2025/01/01",
        "20250101",
        "2025-01-01 ",
        "",
        "abcd-ef-gh",
        "2025-01-0\u{661}",
    ] {
        assert!(ensure_date(bad).is_err(), "{bad}");
    }
    assert_eq!(
        refusal(ensure_date("a\"b")),
        "date must be a valid YYYY-MM-DD, got \"a\\\"b\""
    );
}

#[test]
fn the_first_bad_date_is_told() {
    let r = get_prices(&prices(some("x"), some("y"), None));
    assert_eq!(refusal(r), "date must be a valid YYYY-MM-DD, got \"x\"");
    let r = get_prices(&prices(some("2025-01-01"), some("2025-01-01' OR 1"), None));
    assert_eq!(refusal(r), "date must be a valid YYYY-MM-DD, got \"2025-01-01' OR 1\"");
    let mut sql = "S".to_string();
    assert!(push_date_range(&mut sql, &some("2025-01-01"), &some("bad")).is_err());
    assert_eq!(sql, "S AND date >= '2025-01-01'");
    assert!(push_date_range(&mut sql, &None, &None).is_ok());
    assert_eq!(sql, "S AND date >= '2025-01-01'");
}

#[test]
fn the_ticker_never_shows_in_the_statement() {
    let a = get_prices(&prices(None, None, None)).unwrap();
    let b = get_prices(&PricesReq {
        ticker: "x' OR '1'='1".to_string(),
        from: None,
        to: None,
        source: None,
    })
    .unwrap();
    assert_eq!(a.sql, b.sql);
    assert_eq!(b.params, vec!["x' OR '1'='1"]);
}

#[test]
fn failures_blame_the_server_or_the_caller() {
    match mcp_err(&EngineError::ReadRow) {
        ToolError::Internal(m) => assert_eq!(m, "read row"),
        ToolError::InvalidParams(_) => panic!("wrong blame"),
    }
    match user_err(&EngineError::EmptyQuery) {
        ToolError::InvalidParams(m) => assert_eq!(m, "empty query"),
        ToolError::Internal(_) => panic!("wrong blame"),
    }
}

#[test]
fn answers_have_their_shape() {
    assert!(matches!(first_row(vec![]), Json::Null));
    assert!(matches!(first_row(vec![Json::Bool(true), Json::Null]), Json::Bool(true)));
    let out = QueryOutput { rows: vec![Json::Null, Json::Null], truncated: true };
    match query_answer(out) {
        Json::Object(m) => {
            assert_eq!(m[0].0, "row_count");
            assert!(matches!(&m[0].1, Json::Number(n) if n == "2"));
            assert_eq!(m[1].0, "truncated");
            assert!(matches!(m[1].1, Json::Bool(true)));
            assert_eq!(m[2].0, "rows");
            assert!(matches!(&m[2].1, Json::Array(v) if v.len() == 2));
            assert_eq!(m.len(), 3);
        }
        _ => panic!("no object"),
    }
    let company = company_answer(vec![Json::Bool(true)], vec![], vec![Json::Bool(false)]);
    assert!(matches!(company.get("profile"), Some(Json::Bool(true))));
    assert!(matches!(company.get("key_stats"), Some(Json::Null)));
    assert!(matches!(company.get("summary"), Some(Json::Bool(false))));
}
