//! The tools that agents call: what each request may hold, the statement that
//! answers it, and the shape of the answer.

use vstd::prelude::*;
use vstd::string::*;

use crate::analytics::QueryOutput;
use crate::catalog::MAX_ROWS;
use crate::errors::EngineError;
use crate::json::json_views;
use crate::json::member_views;
use crate::json::push_member;
use crate::json::Json;
use crate::json::JsonView;
use crate::text::chars_of;
use crate::text::debug_quoted;
use crate::text::decimal;
use crate::text::digits_value;
use crate::text::is_digit;
use crate::text::opt_text;
use crate::text::push_decimal;
use crate::text::quote;
use crate::text::same_text;
use crate::text::texts;

verus! {

/// Substring search over tickers and company names.
#[derive(Debug)]
pub struct SearchTickersReq {
    /// Substring to match against ticker symbol or company name.
    pub query: String,
    /// Max results (default 20).
    pub limit: Option<u32>,
}

/// A request about one ticker.
#[derive(Debug)]
pub struct TickerReq {
    /// IDX ticker symbol, e.g. "BBCA".
    pub ticker: String,
}

/// A request for the price history of one ticker.
#[derive(Debug)]
pub struct PricesReq {
    /// IDX ticker symbol, e.g. "BBCA".
    pub ticker: String,
    /// Inclusive start date, YYYY-MM-DD.
    pub from: Option<String>,
    /// Inclusive end date, YYYY-MM-DD.
    pub to: Option<String>,
    /// Price source: "yf" (Yahoo OHLCV, default) or "idx" (official summary + foreign flow).
    pub source: Option<String>,
}

/// A request about one ticker over a date range.
#[derive(Debug)]
pub struct RangeReq {
    /// IDX ticker symbol, e.g. "BBCA".
    pub ticker: String,
    /// Inclusive start date, YYYY-MM-DD.
    pub from: Option<String>,
    /// Inclusive end date, YYYY-MM-DD.
    pub to: Option<String>,
}

/// A request for corporate announcements.
#[derive(Debug)]
pub struct AnnouncementsReq {
    /// Optional ticker filter, e.g. "BBCA".
    pub ticker: Option<String>,
    /// Inclusive start date, YYYY-MM-DD.
    pub from: Option<String>,
    /// Inclusive end date, YYYY-MM-DD.
    pub to: Option<String>,
    /// Max results (default 50).
    pub limit: Option<u32>,
}

/// A request to run a query of the caller's own.
#[derive(Debug)]
pub struct RunQueryReq {
    /// A single read-only SELECT over the documented tables and views
    /// (`latest`, `returns`, `broker_net`). Call `describe_schema` first.
    pub sql: String,
    /// Max rows to return (default and hard cap 5000).
    pub limit: Option<u32>,
}

/// A request to describe the schema.
#[derive(Debug)]
pub struct DescribeReq {
    /// Optional single table/view name. Omit to describe everything.
    pub dataset: Option<String>,
}

/// What a tool answers when it cannot serve a request.
#[derive(Debug)]
pub enum ToolError {
    /// The request is at fault, for the given reason.
    InvalidParams(String),
    /// The server is at fault, for the given reason.
    Internal(String),
}

/// The mathematical value of a [`ToolError`].
pub enum ToolErrorView {
    InvalidParams(Seq<char>),
    Internal(Seq<char>),
}

impl ToolError {
    /// The mathematical value.
    pub open spec fn view(&self) -> ToolErrorView {
        match self {
            ToolError::InvalidParams(m) => ToolErrorView::InvalidParams(m@),
            ToolError::Internal(m) => ToolErrorView::Internal(m@),
        }
    }
}

/// An engine failure that the server answers for.
pub fn mcp_err(e: &EngineError) -> (r: ToolError)
    ensures
        r@ == ToolErrorView::Internal(e@.message()),
{
    ToolError::Internal(e.message())
}

/// An engine failure that the caller's query brought about.
pub fn user_err(e: &EngineError) -> (r: ToolError)
    ensures
        r@ == ToolErrorView::InvalidParams(e@.message()),
{
    ToolError::InvalidParams(e.message())
}

/// A statement with the values to bind to its parameters, in order.
#[derive(Debug)]
pub struct Plan {
    pub sql: String,
    pub params: Vec<String>,
}

/// The mathematical value of a [`Plan`].
pub struct PlanView {
    pub sql: Seq<char>,
    pub params: Seq<Seq<char>>,
}

impl Plan {
    /// The mathematical value.
    pub open spec fn view(&self) -> PlanView {
        PlanView { sql: self.sql@, params: texts(self.params@) }
    }
}

/// A plan or the reason why there is none.
pub open spec fn planned(r: Result<Plan, ToolError>) -> Result<PlanView, ToolErrorView> {
    match r {
        Ok(p) => Ok(p@),
        Err(e) => Err(e@),
    }
}

/// The number of rows to ask for: what the caller wants, or the default, and
/// never more than the hard cap.
pub open spec fn limited(limit: Option<u32>, default: u32) -> nat {
    let n = match limit {
        Some(n) => n,
        None => default,
    };
    if n <= MAX_ROWS {
        n as nat
    } else {
        MAX_ROWS as nat
    }
}

/// The number of rows to ask for.
pub fn row_limit(limit: Option<u32>, default: u32) -> (r: u32)
    ensures
        r == limited(limit, default),
{
    let n: u32 = match limit {
        Some(n) => n,
        None => default,
    };
    if n <= MAX_ROWS {
        n
    } else {
        MAX_ROWS
    }
}

/// No request gets more rows than the hard cap, whatever it asks for.
pub proof fn law_row_limits_keep_the_cap(limit: Option<u32>, default: u32)
    ensures
        limited(limit, default) <= MAX_ROWS,
        limit is Some && limit->Some_0 <= MAX_ROWS ==> limited(limit, default) == limit->Some_0,
{
}

/// A plan with the ticker as its one parameter.
fn ticker_plan(sql: String, ticker: &str) -> (r: Plan)
    ensures
        r@ == (PlanView { sql: sql@, params: seq![ticker@] }),
{
    let mut params: Vec<String> = Vec::new();
    params.push(ticker.to_string());
    assert(texts(params@) =~= seq![ticker@]);
    Plan { sql, params }
}

// ---- dates ----

/// True if `s` is written YYYY-MM-DD with a month from 1 to 12 and a day from 1
/// to 31.
pub open spec fn valid_date(s: Seq<char>) -> bool {
    &&& s.len() == 10
    &&& forall|i: int|
        0 <= i < 10 ==> if i == 4 || i == 7 {
            #[trigger] s[i] == '-'
        } else {
            is_digit(s[i])
        }
    &&& 1 <= digits_value(s.subrange(5, 7)) <= 12
    &&& 1 <= digits_value(s.subrange(8, 10)) <= 31
}

/// What is said of a date that is not valid.
pub open spec fn date_message(s: Seq<char>) -> Seq<char> {
    "date must be a valid YYYY-MM-DD, got "@ + debug_quoted(s)
}

/// The number that two digits write.
fn two_digits(a: char, b: char) -> (r: u32)
    requires
        is_digit(a),
        is_digit(b),
    ensures
        r == digits_value(seq![a, b]),
{
    proof {
        reveal_with_fuel(digits_value, 3);
        assert(seq![a, b].drop_last() =~= seq![a]);
        assert(seq![a].drop_last() =~= Seq::empty());
    }
    (a as u32 - 48) * 10 + (b as u32 - 48)
}

/// True if `s` is a date that may be written into a statement.
fn is_valid_date(s: &str) -> (r: bool)
    ensures
        r == valid_date(s@),
{
    let x = chars_of(s);
    if x.len() != 10 {
        return false;
    }
    let mut i: usize = 0;
    while i < 10
        invariant
            i <= 10,
            x@ == s@,
            x@.len() == 10,
            forall|j: int|
                0 <= j < i ==> if j == 4 || j == 7 {
                    #[trigger] x@[j] == '-'
                } else {
                    is_digit(x@[j])
                },
        decreases 10 - i,
    {
        if i == 4 || i == 7 {
            if x[i] != '-' {
                return false;
            }
        } else if !('0' <= x[i] && x[i] <= '9') {
            return false;
        }
        i = i + 1;
    }
    assert(s@.subrange(5, 7) =~= seq![x@[5], x@[6]]);
    assert(s@.subrange(8, 10) =~= seq![x@[8], x@[9]]);
    let month: u32 = two_digits(x[5], x[6]);
    let day: u32 = two_digits(x[8], x[9]);
    1 <= month && month <= 12 && 1 <= day && day <= 31
}

/// Refuses a text that is not a valid date.
pub fn ensure_date(s: &str) -> (r: Result<(), ToolError>)
    ensures
        match r {
            Ok(_) => valid_date(s@),
            Err(e) => !valid_date(s@) && e@ == ToolErrorView::InvalidParams(date_message(s@)),
        },
{
    if is_valid_date(s) {
        Ok(())
    } else {
        let mut m = "date must be a valid YYYY-MM-DD, got ".to_string();
        m.append(quote(s).as_str());
        Err(ToolError::InvalidParams(m))
    }
}

/// The condition that one end of a date range adds.
pub open spec fn date_clause(before: Seq<char>, date: Option<Seq<char>>) -> Seq<char> {
    match date {
        Some(d) => before + d + "'"@,
        None => Seq::empty(),
    }
}

/// The condition that a date range adds.
pub open spec fn range_clause(from: Option<Seq<char>>, to: Option<Seq<char>>) -> Seq<char> {
    date_clause(" AND date >= '"@, from) + date_clause(" AND date <= '"@, to)
}

/// The first of the given dates that is not valid.
pub open spec fn bad_date(from: Option<Seq<char>>, to: Option<Seq<char>>) -> Option<Seq<char>> {
    if from is Some && !valid_date(from->Some_0) {
        from
    } else if to is Some && !valid_date(to->Some_0) {
        to
    } else {
        None
    }
}

/// A statement with a date range in it, or the refusal of its first bad date.
pub open spec fn ranged(
    head: Seq<char>,
    from: Option<String>,
    to: Option<String>,
    tail: Seq<char>,
    params: Seq<Seq<char>>,
) -> Result<PlanView, ToolErrorView> {
    match bad_date(opt_text(from), opt_text(to)) {
        Some(d) => Err(ToolErrorView::InvalidParams(date_message(d))),
        None => Ok(
            PlanView {
                sql: head + range_clause(opt_text(from), opt_text(to)) + tail,
                params,
            },
        ),
    }
}

/// Appends validated `date` range clauses; a date is written into the statement
/// only after its format was checked.
pub fn push_date_range(sql: &mut String, from: &Option<String>, to: &Option<String>) -> (r: Result<
    (),
    ToolError,
>)
    ensures
        match r {
            Ok(_) => bad_date(opt_text(*from), opt_text(*to)) is None && final(sql)@ == old(sql)@
                + range_clause(opt_text(*from), opt_text(*to)),
            Err(e) => bad_date(opt_text(*from), opt_text(*to)) is Some && e@
                == ToolErrorView::InvalidParams(
                date_message(bad_date(opt_text(*from), opt_text(*to))->Some_0),
            ) && final(sql)@ == old(sql)@ + (if bad_date(opt_text(*from), None) is Some {
                Seq::empty()
            } else {
                date_clause(" AND date >= '"@, opt_text(*from))
            }),
        },
{
    let ghost start = sql@;
    if let Some(f) = from {
        match ensure_date(f.as_str()) {
            Err(e) => {
                assert(sql@ =~= start + Seq::empty());
                return Err(e);
            },
            Ok(_) => {
                sql.append(" AND date >= '");
                sql.append(f.as_str());
                sql.append("'");
            },
        }
    }
    let ghost middle = sql@;
    assert(middle =~= start + date_clause(" AND date >= '"@, opt_text(*from)));
    if let Some(t) = to {
        match ensure_date(t.as_str()) {
            Err(e) => {
                return Err(e);
            },
            Ok(_) => {
                sql.append(" AND date <= '");
                sql.append(t.as_str());
                sql.append("'");
            },
        }
    }
    assert(sql@ =~= middle + date_clause(" AND date <= '"@, opt_text(*to)));
    assert(sql@ =~= start + range_clause(opt_text(*from), opt_text(*to)));
    Ok(())
}

/// A valid date holds nothing but digits and dashes, so it cannot end the
/// literal that it is written into.
pub proof fn law_dates_hold_digits_and_dashes(s: Seq<char>, i: int)
    requires
        valid_date(s),
        0 <= i < s.len(),
    ensures
        is_digit(s[i]) || s[i] == '-',
        s[i] != '\'',
{
}

// ---- plans ----

/// The head of the ticker search.
pub const SEARCH_SQL: &'static str =
    "SELECT ticker, company_name, sector, exchange FROM companies \
             WHERE ticker ILIKE ? OR company_name ILIKE ? LIMIT ";

/// The profile of one company.
pub const PROFILE_SQL: &'static str =
    "SELECT ticker, company_name, sector, sub_sector, exchange, country, status, \
                 instrument_type, listing_board, ipo_date, company_background \
                 FROM companies WHERE ticker = ? LIMIT 1";

/// The latest key statistics of one company.
pub const KEY_STATS_SQL: &'static str =
    "SELECT ticker, date, market_cap, enterprise_value, shares_outstanding, \
                 free_float_pct, latest_dividend, latest_dividend_year \
                 FROM fundamentals WHERE ticker = ? ORDER BY date DESC LIMIT 1";

/// The Yahoo summary of one company.
pub const SUMMARY_SQL: &'static str =
    "SELECT ticker, name, market_cap, trailing_pe, forward_pe, price_to_book, \
                 dividend_yield, beta, return_on_equity, profit_margins, week_high_52, \
                 week_low_52, target_mean_price, recommendation_key \
                 FROM summary WHERE ticker = ? LIMIT 1";

/// The head of the official price history.
pub const IDX_PRICES_SQL: &'static str =
    "SELECT ticker, date, open, high, low, close, previous, change, volume, value, \
                 frequency, foreign_buy, foreign_sell FROM eod_summary WHERE ticker = ?";

/// The head of the Yahoo price history.
pub const YF_PRICES_SQL: &'static str =
    "SELECT ticker, date, open, high, low, close, volume, dividends, splits \
                 FROM prices WHERE ticker = ?";

/// The head of the broker activity.
pub const BROKER_ACTIVITY_SQL: &'static str =
    "SELECT ticker, date, broker_code, side, volume_lot, value, frequency, \
             avg_price, domicile FROM broker_activity WHERE ticker = ?";

/// The depository ownership of one company.
pub const OWNERSHIP_SQL: &'static str =
    "SELECT ticker, date, name, type, classification, local_foreign, total_shares, \
             percentage FROM ownership WHERE ticker = ? ORDER BY percentage DESC LIMIT 5000";

/// The head of the announcements.
pub const ANNOUNCEMENTS_SQL: &'static str =
    "SELECT ticker, date, source, title, subject, announcement_type, \
             announcement_no, published_at FROM announcements WHERE 1=1";

/// The pattern that matches every text with `query` in it.
pub open spec fn pattern(query: Seq<char>) -> Seq<char> {
    "%"@ + query + "%"@
}

/// The statement that searches tickers.
pub open spec fn search_plan(query: Seq<char>, limit: Option<u32>) -> PlanView {
    PlanView {
        sql: SEARCH_SQL@ + decimal(limited(limit, 20)),
        params: seq![pattern(query), pattern(query)],
    }
}

/// Searches tickers by symbol or company name.
pub fn search_tickers(req: &SearchTickersReq) -> (r: Plan)
    ensures
        r@ == search_plan(req.query@, req.limit),
{
    let mut sql = SEARCH_SQL.to_string();
    push_decimal(&mut sql, row_limit(req.limit, 20) as u64);
    let mut like = "%".to_string();
    like.append(req.query.as_str());
    like.append("%");
    let mut params: Vec<String> = Vec::new();
    params.push(like.clone());
    params.push(like);
    assert(texts(params@) =~= seq![pattern(req.query@), pattern(req.query@)]);
    Plan { sql, params }
}

/// The statements that answer `get_company`.
#[derive(Debug)]
pub struct CompanyPlans {
    pub profile: Plan,
    pub key_stats: Plan,
    pub summary: Plan,
}

/// The mathematical value of [`CompanyPlans`].
pub struct CompanyPlansView {
    pub profile: PlanView,
    pub key_stats: PlanView,
    pub summary: PlanView,
}

impl CompanyPlans {
    /// The mathematical value.
    pub open spec fn view(&self) -> CompanyPlansView {
        CompanyPlansView {
            profile: self.profile@,
            key_stats: self.key_stats@,
            summary: self.summary@,
        }
    }
}

/// The statements that answer `get_company`.
pub open spec fn company_plans(ticker: Seq<char>) -> CompanyPlansView {
    CompanyPlansView {
        profile: PlanView { sql: PROFILE_SQL@, params: seq![ticker] },
        key_stats: PlanView { sql: KEY_STATS_SQL@, params: seq![ticker] },
        summary: PlanView { sql: SUMMARY_SQL@, params: seq![ticker] },
    }
}

/// Company profile, key statistics, and Yahoo summary.
pub fn get_company(req: &TickerReq) -> (r: CompanyPlans)
    ensures
        r@ == company_plans(req.ticker@),
{
    CompanyPlans {
        profile: ticker_plan(PROFILE_SQL.to_string(), req.ticker.as_str()),
        key_stats: ticker_plan(KEY_STATS_SQL.to_string(), req.ticker.as_str()),
        summary: ticker_plan(SUMMARY_SQL.to_string(), req.ticker.as_str()),
    }
}

/// The statement head for a price source.
pub open spec fn prices_head(source: Option<Seq<char>>) -> Seq<char> {
    if source == Some("idx"@) {
        IDX_PRICES_SQL@
    } else {
        YF_PRICES_SQL@
    }
}

/// The statement that gives the price history of one ticker.
pub open spec fn prices_plan(req: PricesReq) -> Result<PlanView, ToolErrorView> {
    ranged(
        prices_head(opt_text(req.source)),
        req.from,
        req.to,
        " ORDER BY date LIMIT "@ + decimal(MAX_ROWS as nat),
        seq![req.ticker@],
    )
}

/// Daily price history of one ticker.
pub fn get_prices(req: &PricesReq) -> (r: Result<Plan, ToolError>)
    ensures
        planned(r) == prices_plan(*req),
{
    let official = match &req.source {
        Some(s) => same_text(s.as_str(), "idx"),
        None => false,
    };
    let mut sql = if official {
        IDX_PRICES_SQL.to_string()
    } else {
        YF_PRICES_SQL.to_string()
    };
    match push_date_range(&mut sql, &req.from, &req.to) {
        Err(e) => Err(e),
        Ok(_) => {
            let ghost head = sql@;
            sql.append(" ORDER BY date LIMIT ");
            push_decimal(&mut sql, MAX_ROWS as u64);
            assert(sql@ =~= head + (" ORDER BY date LIMIT "@ + decimal(MAX_ROWS as nat)));
            Ok(ticker_plan(sql, req.ticker.as_str()))
        },
    }
}

/// The statement that gives the broker activity of one ticker.
pub open spec fn broker_plan(req: RangeReq) -> Result<PlanView, ToolErrorView> {
    ranged(
        BROKER_ACTIVITY_SQL@,
        req.from,
        req.to,
        " ORDER BY date, value DESC LIMIT "@ + decimal(MAX_ROWS as nat),
        seq![req.ticker@],
    )
}

/// Per-broker buy and sell activity of one ticker.
pub fn get_broker_activity(req: &RangeReq) -> (r: Result<Plan, ToolError>)
    ensures
        planned(r) == broker_plan(*req),
{
    let mut sql = BROKER_ACTIVITY_SQL.to_string();
    match push_date_range(&mut sql, &req.from, &req.to) {
        Err(e) => Err(e),
        Ok(_) => {
            let ghost head = sql@;
            sql.append(" ORDER BY date, value DESC LIMIT ");
            push_decimal(&mut sql, MAX_ROWS as u64);
            assert(sql@ =~= head + (" ORDER BY date, value DESC LIMIT "@ + decimal(
                MAX_ROWS as nat,
            )));
            Ok(ticker_plan(sql, req.ticker.as_str()))
        },
    }
}

/// The statement that gives the ownership of one ticker.
pub open spec fn ownership_plan(ticker: Seq<char>) -> PlanView {
    PlanView { sql: OWNERSHIP_SQL@, params: seq![ticker] }
}

/// Depository ownership of one ticker.
pub fn get_ownership(req: &TickerReq) -> (r: Plan)
    ensures
        r@ == ownership_plan(req.ticker@),
{
    ticker_plan(OWNERSHIP_SQL.to_string(), req.ticker.as_str())
}

/// The condition and the parameter that an optional ticker adds.
pub open spec fn ticker_clause(ticker: Option<Seq<char>>) -> (Seq<char>, Seq<Seq<char>>) {
    match ticker {
        Some(t) => (" AND ticker = ?"@, seq![t]),
        None => (Seq::empty(), Seq::empty()),
    }
}

/// The statement that gives the announcements.
pub open spec fn announcements_plan(req: AnnouncementsReq) -> Result<PlanView, ToolErrorView> {
    ranged(
        ANNOUNCEMENTS_SQL@ + ticker_clause(opt_text(req.ticker)).0,
        req.from,
        req.to,
        " ORDER BY date DESC LIMIT "@ + decimal(limited(req.limit, 50)),
        ticker_clause(opt_text(req.ticker)).1,
    )
}

/// Corporate announcements, optionally of one ticker and over a date range.
pub fn get_announcements(req: &AnnouncementsReq) -> (r: Result<Plan, ToolError>)
    ensures
        planned(r) == announcements_plan(*req),
{
    let mut sql = ANNOUNCEMENTS_SQL.to_string();
    let mut params: Vec<String> = Vec::new();
    match &req.ticker {
        Some(t) => {
            sql.append(" AND ticker = ?");
            params.push(t.clone());
        },
        None => {},
    }
    assert(sql@ =~= ANNOUNCEMENTS_SQL@ + ticker_clause(opt_text(req.ticker)).0);
    assert(texts(params@) =~= ticker_clause(opt_text(req.ticker)).1);
    match push_date_range(&mut sql, &req.from, &req.to) {
        Err(e) => Err(e),
        Ok(_) => {
            let ghost head = sql@;
            sql.append(" ORDER BY date DESC LIMIT ");
            push_decimal(&mut sql, row_limit(req.limit, 50) as u64);
            assert(sql@ =~= head + (" ORDER BY date DESC LIMIT "@ + decimal(
                limited(req.limit, 50),
            )));
            Ok(Plan { sql, params })
        },
    }
}

/// The row limit of a query of the caller's own, as the engine takes it.
pub open spec fn passed_on(limit: Option<u32>) -> Option<usize> {
    match limit {
        Some(n) => Some(n as usize),
        None => None,
    }
}

/// The row limit of a query of the caller's own, as the engine takes it.
pub fn query_limit(req: &RunQueryReq) -> (r: Option<usize>)
    ensures
        r == passed_on(req.limit),
{
    match req.limit {
        Some(n) => Some(n as usize),
        None => None,
    }
}

/// What is bound never shows in a statement: two requests that differ only in
/// the bound values get the same statement, or the same refusal.
pub proof fn law_bound_values_are_not_written(
    head: Seq<char>,
    from: Option<String>,
    to: Option<String>,
    tail: Seq<char>,
    p: Seq<Seq<char>>,
    q: Seq<Seq<char>>,
)
    ensures
        match (ranged(head, from, to, tail, p), ranged(head, from, to, tail, q)) {
            (Ok(x), Ok(y)) => x.sql == y.sql && x.params == p && y.params == q,
            (Err(x), Err(y)) => x == y,
            _ => false,
        },
{
}

// ---- answers ----

/// The first row of a result, or JSON null.
pub open spec fn first_of(rows: Seq<JsonView>) -> JsonView {
    if rows.len() == 0 {
        JsonView::Null
    } else {
        rows[0]
    }
}

/// The first row of a result, or JSON null.
pub fn first_row(rows: Vec<Json>) -> (r: Json)
    ensures
        r@ == first_of(json_views(rows@)),
{
    let mut rows = rows;
    if rows.len() == 0 {
        Json::Null
    } else {
        rows.remove(0)
    }
}

/// The value of a [`QueryOutput`] as `run_query` answers it.
pub open spec fn output_json(out: QueryOutput) -> JsonView {
    JsonView::Object(
        seq![
            ("row_count"@, JsonView::Number(decimal(out.rows@.len()))),
            ("truncated"@, JsonView::Bool(out.truncated)),
            ("rows"@, JsonView::Array(json_views(out.rows@))),
        ],
    )
}

/// The answer of `run_query`: how many rows, whether they were cut, and the rows.
pub fn query_answer(out: QueryOutput) -> (r: Json)
    ensures
        r@ == output_json(out),
{
    let count: usize = out.rows.len();
    let mut m: Vec<(String, Json)> = Vec::new();
    push_member(&mut m, "row_count", Json::of_number(count as u64));
    push_member(&mut m, "truncated", Json::of_bool(out.truncated));
    push_member(&mut m, "rows", Json::of_items(out.rows));
    assert(member_views(m@) =~= output_json(out)->Object_0);
    Json::of_members(m)
}

/// The answer of `get_company`, from the rows of its three statements.
pub open spec fn company_json(
    profile: Seq<JsonView>,
    key_stats: Seq<JsonView>,
    summary: Seq<JsonView>,
) -> JsonView {
    JsonView::Object(
        seq![
            ("profile"@, first_of(profile)),
            ("key_stats"@, first_of(key_stats)),
            ("summary"@, first_of(summary)),
        ],
    )
}

/// The answer of `get_company`.
pub fn company_answer(profile: Vec<Json>, key_stats: Vec<Json>, summary: Vec<Json>) -> (r: Json)
    ensures
        r@ == company_json(json_views(profile@), json_views(key_stats@), json_views(summary@)),
{
    let mut m: Vec<(String, Json)> = Vec::new();
    push_member(&mut m, "profile", first_row(profile));
    push_member(&mut m, "key_stats", first_row(key_stats));
    push_member(&mut m, "summary", first_row(summary));
    assert(member_views(m@) =~= seq![
        ("profile"@, first_of(json_views(profile@))),
        ("key_stats"@, first_of(json_views(key_stats@))),
        ("summary"@, first_of(json_views(summary@))),
    ]);
    Json::of_members(m)
}

// ---- laws of the tools ----

proof fn lemma_five_thousand()
    ensures
        decimal(5000) == "5000"@,
{
    reveal_strlit("5000");
    reveal_with_fuel(decimal, 5);
    assert(decimal(5) =~= seq!['5']);
    assert(decimal(50) =~= seq!['5', '0']);
    assert(decimal(500) =~= seq!['5', '0', '0']);
    assert(decimal(5000) =~= "5000"@);
}

/// Without a limit the default holds, with one the caller's, and neither goes beyond
/// five thousand rows.
pub proof fn law_row_limits(limit: Option<u32>, default: u32)
    ensures
        MAX_ROWS == 5000,
        limit is None && default <= 5000 ==> limited(limit, default) == default,
        limit is None && default > 5000 ==> limited(limit, default) == 5000,
        limit is Some && limit->Some_0 <= 5000 ==> limited(limit, default) == limit->Some_0,
        limit is Some && limit->Some_0 > 5000 ==> limited(limit, default) == 5000,
        limit is Some ==> passed_on(limit) is Some && passed_on(limit)->0 == limit->0,
        limit is None ==> passed_on(limit) is None,
{
}

/// A date is four digits, a dash, two digits that write a month, a dash, and two digits
/// that write a day.
pub proof fn law_dates_are_year_month_day(s: Seq<char>)
    ensures
        valid_date(s) <==> {
            &&& s.len() == 10
            &&& is_digit(s[0]) && is_digit(s[1]) && is_digit(s[2]) && is_digit(s[3])
            &&& s[4] == '-' && s[7] == '-'
            &&& is_digit(s[5]) && is_digit(s[6]) && is_digit(s[8]) && is_digit(s[9])
            &&& 1 <= (s[5] as int - 48) * 10 + (s[6] as int - 48) <= 12
            &&& 1 <= (s[8] as int - 48) * 10 + (s[9] as int - 48) <= 31
        },
{
    if s.len() == 10 {
        reveal_with_fuel(digits_value, 3);
        let m = s.subrange(5, 7);
        let d = s.subrange(8, 10);
        assert(m =~= seq![s[5], s[6]] && d =~= seq![s[8], s[9]]);
        assert(m.drop_last() =~= seq![s[5]] && d.drop_last() =~= seq![s[8]]);
        assert(seq![s[5]].drop_last() =~= Seq::empty() && seq![s[8]].drop_last() =~= Seq::empty());
        if is_digit(s[5]) && is_digit(s[6]) && is_digit(s[8]) && is_digit(s[9]) {
            assert(digits_value(seq![s[5]]) == s[5] as int - 48);
            assert(digits_value(seq![s[8]]) == s[8] as int - 48);
            assert(digits_value(m) == (s[5] as int - 48) * 10 + (s[6] as int - 48));
            assert(digits_value(d) == (s[8] as int - 48) * 10 + (s[9] as int - 48));
        }
    }
}

/// A date range keeps both of its ends: from the first day on, up to the last day, and
/// nothing is asked of an end that is not given.
pub proof fn law_date_ranges_keep_their_ends(from: Seq<char>, to: Seq<char>)
    ensures
        range_clause(None, None) == Seq::<char>::empty(),
        range_clause(Some(from), None) == " AND date >= '"@ + from + "'"@,
        range_clause(None, Some(to)) == " AND date <= '"@ + to + "'"@,
        range_clause(Some(from), Some(to)) == " AND date >= '"@ + from + "'"@
            + " AND date <= '"@ + to + "'"@,
{
    assert(range_clause(None, None) =~= Seq::<char>::empty());
    assert(range_clause(Some(from), None) =~= " AND date >= '"@ + from + "'"@);
    assert(range_clause(None, Some(to)) =~= " AND date <= '"@ + to + "'"@);
    assert(range_clause(Some(from), Some(to)) =~= " AND date >= '"@ + from + "'"@
        + " AND date <= '"@ + to + "'"@);
}

/// A request is refused exactly for a date that is not one: the start if it is at fault,
/// else the end. The refusal blames the caller and quotes the date.
pub proof fn law_bad_dates_are_refused(
    head: Seq<char>,
    from: Option<String>,
    to: Option<String>,
    tail: Seq<char>,
    params: Seq<Seq<char>>,
)
    ensures
        ({
            let bad_from = from is Some && !valid_date(from->0@);
            let bad_to = to is Some && !valid_date(to->0@);
            let plan = ranged(head, from, to, tail, params);
            &&& bad_from ==> plan == Err::<PlanView, _>(
                ToolErrorView::InvalidParams(
                    "date must be a valid YYYY-MM-DD, got "@ + debug_quoted(from->0@),
                ),
            )
            &&& !bad_from && bad_to ==> plan == Err::<PlanView, _>(
                ToolErrorView::InvalidParams(
                    "date must be a valid YYYY-MM-DD, got "@ + debug_quoted(to->0@),
                ),
            )
            &&& !bad_from && !bad_to ==> plan is Ok && plan->Ok_0.params == params
        }),
{
}

/// The prices come from Yahoo's table, whatever the source, unless it is the exchange's:
/// only `idx` reads the official table. Both are of one ticker, in the order of their
/// dates, and no more than five thousand rows.
pub proof fn law_prices_are_yahoos_unless_the_exchange_is_asked(req: PricesReq)
    requires
        is_date_or_absent(req.from),
        is_date_or_absent(req.to),
    ensures
        prices_plan(req) is Ok,
        prices_plan(req)->Ok_0.params == seq![req.ticker@],
        req.source is Some && req.source->0@ == "idx"@ ==> prices_plan(req)->Ok_0.sql
            == "SELECT ticker, date, open, high, low, close, previous, change, volume, value, frequency, foreign_buy, foreign_sell FROM eod_summary WHERE ticker = ?"@
            + range_clause(opt_text(req.from), opt_text(req.to)) + " ORDER BY date LIMIT 5000"@,
        req.source is None || req.source->0@ != "idx"@ ==> prices_plan(req)->Ok_0.sql
            == "SELECT ticker, date, open, high, low, close, volume, dividends, splits FROM prices WHERE ticker = ?"@
            + range_clause(opt_text(req.from), opt_text(req.to)) + " ORDER BY date LIMIT 5000"@,
{
    lemma_five_thousand();
    reveal_strlit(" ORDER BY date LIMIT ");
    reveal_strlit(" ORDER BY date LIMIT 5000");
    reveal_strlit("5000");
    assert(" ORDER BY date LIMIT "@ + "5000"@ =~= " ORDER BY date LIMIT 5000"@);
}

/// A date that is given is a date.
pub open spec fn is_date_or_absent(date: Option<String>) -> bool {
    date is Some ==> valid_date(date->0@)
}

/// Any two sources other than `idx`, and none, give the same statement; `idx` gives
/// another.
pub proof fn law_sources_other_than_the_exchange_are_alike(a: PricesReq, b: PricesReq)
    requires
        a.ticker@ == b.ticker@,
        opt_text(a.from) == opt_text(b.from),
        opt_text(a.to) == opt_text(b.to),
        is_date_or_absent(a.from),
        is_date_or_absent(a.to),
        a.source is None || a.source->0@ != "idx"@,
    ensures
        b.source is None || b.source->0@ != "idx"@ ==> prices_plan(a) == prices_plan(b),
        b.source is Some && b.source->0@ == "idx"@ ==> prices_plan(a) != prices_plan(b),
{
    assert(is_date_or_absent(b.from) && is_date_or_absent(b.to));
    law_prices_are_yahoos_unless_the_exchange_is_asked(a);
    law_prices_are_yahoos_unless_the_exchange_is_asked(b);
    reveal_strlit("SELECT ticker, date, open, high, low, close, previous, change, volume, value, frequency, foreign_buy, foreign_sell FROM eod_summary WHERE ticker = ?");
    reveal_strlit("SELECT ticker, date, open, high, low, close, volume, dividends, splits FROM prices WHERE ticker = ?");
    let r = range_clause(opt_text(a.from), opt_text(a.to));
    let t = " ORDER BY date LIMIT 5000"@;
    let x = "SELECT ticker, date, open, high, low, close, previous, change, volume, value, frequency, foreign_buy, foreign_sell FROM eod_summary WHERE ticker = ?"@;
    let y = "SELECT ticker, date, open, high, low, close, volume, dividends, splits FROM prices WHERE ticker = ?"@;
    assert(x.len() != y.len());
    assert((x + r + t).len() != (y + r + t).len());
}

/// The broker activity is of one ticker, in the order of its dates, the largest values of
/// a day first.
pub proof fn law_broker_activity_is_of_one_ticker(req: RangeReq)
    requires
        is_date_or_absent(req.from),
        is_date_or_absent(req.to),
    ensures
        broker_plan(req) is Ok,
        broker_plan(req)->Ok_0.params == seq![req.ticker@],
        broker_plan(req)->Ok_0.sql == "SELECT ticker, date, broker_code, side, volume_lot, value, frequency, avg_price, domicile FROM broker_activity WHERE ticker = ?"@
            + range_clause(opt_text(req.from), opt_text(req.to))
            + " ORDER BY date, value DESC LIMIT 5000"@,
{
    lemma_five_thousand();
    reveal_strlit(" ORDER BY date, value DESC LIMIT ");
    reveal_strlit(" ORDER BY date, value DESC LIMIT 5000");
    reveal_strlit("5000");
    assert(" ORDER BY date, value DESC LIMIT "@ + "5000"@
        =~= " ORDER BY date, value DESC LIMIT 5000"@);
}

/// The owners of one ticker, the largest first.
pub proof fn law_ownership_lists_the_largest_owners_first(ticker: Seq<char>)
    ensures
        ownership_plan(ticker).params == seq![ticker],
        ownership_plan(ticker).sql
            == "SELECT ticker, date, name, type, classification, local_foreign, total_shares, percentage FROM ownership WHERE ticker = ? ORDER BY percentage DESC LIMIT 5000"@,
{
}

/// The profile, the latest statistics and the Yahoo summary are all of the same ticker.
pub proof fn law_a_company_is_asked_for_three_times(ticker: Seq<char>)
    ensures
        company_plans(ticker).profile.params == seq![ticker],
        company_plans(ticker).key_stats.params == seq![ticker],
        company_plans(ticker).summary.params == seq![ticker],
        company_plans(ticker).profile.sql
            == "SELECT ticker, company_name, sector, sub_sector, exchange, country, status, instrument_type, listing_board, ipo_date, company_background FROM companies WHERE ticker = ? LIMIT 1"@,
        company_plans(ticker).key_stats.sql
            == "SELECT ticker, date, market_cap, enterprise_value, shares_outstanding, free_float_pct, latest_dividend, latest_dividend_year FROM fundamentals WHERE ticker = ? ORDER BY date DESC LIMIT 1"@,
        company_plans(ticker).summary.sql
            == "SELECT ticker, name, market_cap, trailing_pe, forward_pe, price_to_book, dividend_yield, beta, return_on_equity, profit_margins, week_high_52, week_low_52, target_mean_price, recommendation_key FROM summary WHERE ticker = ? LIMIT 1"@,
{
}

/// A ticker is found by any part of its symbol or of the company's name; twenty are
/// listed unless the caller wants another number.
pub proof fn law_tickers_are_found_by_any_part(query: Seq<char>, limit: Option<u32>)
    ensures
        search_plan(query, limit).params == seq!["%"@ + query + "%"@, "%"@ + query + "%"@],
        search_plan(query, limit).sql
            == "SELECT ticker, company_name, sector, exchange FROM companies WHERE ticker ILIKE ? OR company_name ILIKE ? LIMIT "@
            + decimal(limited(limit, 20)),
        search_plan(query, None).sql == search_plan(query, Some(20)).sql,
{
}

/// Announcements are of one ticker if one is given, else of all; the newest come first,
/// and fifty of them unless the caller wants another number.
pub proof fn law_announcements_come_newest_first(req: AnnouncementsReq)
    requires
        is_date_or_absent(req.from),
        is_date_or_absent(req.to),
    ensures
        announcements_plan(req) is Ok,
        ({
            let plan = announcements_plan(req)->Ok_0;
            let head = "SELECT ticker, date, source, title, subject, announcement_type, announcement_no, published_at FROM announcements WHERE 1=1"@;
            let tail = range_clause(opt_text(req.from), opt_text(req.to))
                + " ORDER BY date DESC LIMIT "@ + decimal(limited(req.limit, 50));
            &&& req.ticker is None ==> plan.sql == head + tail && plan.params.len() == 0
            &&& req.ticker is Some ==> plan.sql == head + " AND ticker = ?"@ + tail && plan.params
                == seq![req.ticker->0@]
        }),
{
    let plan = announcements_plan(req)->Ok_0;
    let head = ANNOUNCEMENTS_SQL@;
    let r = range_clause(opt_text(req.from), opt_text(req.to));
    let tail = r + " ORDER BY date DESC LIMIT "@ + decimal(limited(req.limit, 50));
    if req.ticker is None {
        assert(plan.sql =~= head + tail);
    } else {
        assert(plan.sql =~= head + " AND ticker = ?"@ + tail);
    }
}

/// What `run_query` answers names the rows, their number, and whether there were more.
pub proof fn law_query_answers_tell_the_cut(out: QueryOutput)
    ensures
        output_json(out).get("rows"@) == Some(JsonView::Array(json_views(out.rows@))),
        output_json(out).get("row_count"@) == Some(JsonView::Number(decimal(out.rows@.len()))),
        output_json(out).get("truncated"@) == Some(JsonView::Bool(out.truncated)),
{
    reveal_strlit("rows");
    reveal_strlit("row_count");
    reveal_strlit("truncated");
    reveal_with_fuel(crate::json::member, 4);
    let m = output_json(out)->Object_0;
    assert("rows"@.len() == 4 && "row_count"@.len() == 9 && "truncated"@.len() == 9);
    assert("row_count"@[0] == 'r' && "truncated"@[0] == 't');
    assert(m.drop_first()[0] == m[1]);
    assert(m.drop_first().drop_first()[0] == m[2]);
}

/// What `get_company` answers holds the first row of each statement under its name, and
/// null where there was none.
pub proof fn law_company_answers_hold_first_rows(
    profile: Seq<JsonView>,
    key_stats: Seq<JsonView>,
    summary: Seq<JsonView>,
)
    ensures
        ({
            let a = company_json(profile, key_stats, summary);
            &&& a.get("profile"@) == Some(
                if profile.len() > 0 {
                    profile[0]
                } else {
                    JsonView::Null
                },
            )
            &&& a.get("key_stats"@) == Some(
                if key_stats.len() > 0 {
                    key_stats[0]
                } else {
                    JsonView::Null
                },
            )
            &&& a.get("summary"@) == Some(
                if summary.len() > 0 {
                    summary[0]
                } else {
                    JsonView::Null
                },
            )
        }),
{
    reveal_strlit("profile");
    reveal_strlit("key_stats");
    reveal_strlit("summary");
    reveal_with_fuel(crate::json::member, 4);
    let m = company_json(profile, key_stats, summary)->Object_0;
    assert("profile"@.len() == 7 && "key_stats"@.len() == 9 && "summary"@.len() == 7);
    assert("profile"@[0] == 'p' && "summary"@[0] == 's');
    assert(m.drop_first()[0] == m[1]);
    assert(m.drop_first().drop_first()[0] == m[2]);
}

/// A plan is its statement and its parameters in their order; the three plans of a
/// company are kept apart, and a failure keeps its side.
pub proof fn law_plans_are_their_fields(p: Plan, c: CompanyPlans, m: String, i: int)
    ensures
        p@.sql == p.sql@ && p@.params.len() == p.params@.len(),
        0 <= i < p.params@.len() ==> p@.params[i] == p.params@[i]@,
        c@.profile == c.profile@ && c@.key_stats == c.key_stats@ && c@.summary == c.summary@,
        ToolError::InvalidParams(m)@ == ToolErrorView::InvalidParams(m@),
        ToolError::Internal(m)@ == ToolErrorView::Internal(m@),
{
}

} // verus!
