//! Static catalog of the served datasets and the analytical views over them.
//!
//! This module carries the names, the layout, the human descriptions, and the
//! allowlist that gates `run_query`. The columns are introspected from the
//! live serving database, so this file owns only what the engine cannot infer:
//! semantics, grain, and what is allowed.

use vstd::prelude::*;
use vstd::view::View as _;

use crate::text::ascii_lower;
use crate::text::lower;
use crate::text::same_text;

verus! {

/// The most rows that any tool returns.
pub const MAX_ROWS: u32 = 5000;

pub const PRICES_DOC: &'static str =
    "Daily OHLCV (Yahoo-adjusted). Grain: ticker+date. Primary price source.";

pub const EOD_SUMMARY_DOC: &'static str =
    "Official IDX end-of-day summary incl. foreign_buy/foreign_sell and traded value. Grain: ticker+date.";

pub const INDICATORS_DOC: &'static str =
    "Daily technical indicators (RSI, MACD, SMA/EMA, Bollinger, ATR, VWAP). Grain: ticker+date; NULL during warmup.";

pub const FUNDAMENTALS_DOC: &'static str =
    "Daily fundamentals snapshot: market_cap, enterprise_value, shares_outstanding, free_float_pct, latest dividend. Grain: ticker+date.";

pub const BROKER_ACTIVITY_DOC: &'static str =
    "Per-broker buy/sell flow (bandarmology). Grain: ticker+date+broker_code+side (B|S). value & volume_lot are positive magnitudes; net = buy - sell.";

pub const BROKER_DISTRIBUTION_DOC: &'static str =
    "Broker-to-broker distribution graph (who traded against whom), as delivered by the ETL — typically exploded edges (ticker, date, side, source/counterparty broker, value, volume). Call describe_schema for the live columns.";

pub const BROKER_RANKINGS_DOC: &'static str =
    "Market-wide broker league table by traded value/volume/frequency. Grain: broker_code+date. NO ticker column.";

pub const ANNOUNCEMENTS_DOC: &'static str =
    "IDX corporate announcements and news. Grain: one row per announcement. source = announcement|news; titles are Indonesian.";

pub const COMPANIES_DOC: &'static str =
    "Company profile: name, sector, sub_sector, exchange, listing board, IPO date, background. Latest per ticker.";

pub const SUMMARY_DOC: &'static str =
    "Yahoo fundamentals snapshot. Latest per ticker. WARNING: PE/price_to_book and other valuation ratios are unreliable for IDX names.";

pub const ANALYST_DOC: &'static str =
    "Analyst recommendation counts and price/EPS/revenue targets. Latest per ticker.";

pub const OWNERSHIP_DOC: &'static str =
    "KSEI depository holders with >=1% of shares, local/foreign split. Latest per ticker.";

pub const LATEST_DOC: &'static str =
    "One row per ticker: latest close/volume, fundamentals, yf ratios, and key indicators joined. Built for cross-sectional screening.";

pub const RETURNS_DOC: &'static str =
    "One row per ticker: trailing % returns (ret_1w/1m/3m/6m/ytd/1y/3y) and annualized cagr_3y from close prices.";

pub const BROKER_NET_DOC: &'static str =
    "One row per ticker+date+broker_code: buy/sell/net value and volume. Base for accumulation, flip, and market-maker analysis.";

/// How a dataset is laid out under the data root.
#[derive(Debug, Clone, Copy, PartialEq, Eq, Structural)]
pub enum Kind {
    /// Daily date-partitioned time series: `<name>/date=*/*.parquet`.
    TimeSeries,
    /// Latest-per-ticker snapshot: `<name>/latest.parquet`.
    Snapshot,
}

/// A base table loaded from Parquet.
#[derive(Debug)]
pub struct Dataset {
    pub name: &'static str,
    pub kind: Kind,
    pub doc: &'static str,
}

/// A view computed in the serving database over the base tables.
#[derive(Debug)]
pub struct View {
    pub name: &'static str,
    /// Base tables this view needs; the view is created only if all are loaded.
    pub requires: Vec<&'static str>,
    pub doc: &'static str,
}

// ---- models ----

/// The texts of a list of string slices.
pub open spec fn slices(v: Seq<&'static str>) -> Seq<Seq<char>> {
    v.map_values(|s: &'static str| s@)
}

/// The names of the base tables.
pub open spec fn dataset_names() -> Seq<Seq<char>> {
    seq![
        "prices"@,
        "eod_summary"@,
        "indicators"@,
        "fundamentals"@,
        "broker_activity"@,
        "broker_distribution"@,
        "broker_rankings"@,
        "announcements"@,
        "companies"@,
        "summary"@,
        "analyst"@,
        "ownership"@,
    ]
}

/// The descriptions of the base tables, in the order of their names.
pub open spec fn dataset_docs() -> Seq<Seq<char>> {
    seq![
        PRICES_DOC@,
        EOD_SUMMARY_DOC@,
        INDICATORS_DOC@,
        FUNDAMENTALS_DOC@,
        BROKER_ACTIVITY_DOC@,
        BROKER_DISTRIBUTION_DOC@,
        BROKER_RANKINGS_DOC@,
        ANNOUNCEMENTS_DOC@,
        COMPANIES_DOC@,
        SUMMARY_DOC@,
        ANALYST_DOC@,
        OWNERSHIP_DOC@,
    ]
}

/// The layouts of the base tables, in the order of their names.
pub open spec fn dataset_kinds() -> Seq<Kind> {
    seq![
        Kind::TimeSeries,
        Kind::TimeSeries,
        Kind::TimeSeries,
        Kind::TimeSeries,
        Kind::TimeSeries,
        Kind::TimeSeries,
        Kind::TimeSeries,
        Kind::TimeSeries,
        Kind::Snapshot,
        Kind::Snapshot,
        Kind::Snapshot,
        Kind::Snapshot,
    ]
}

/// The names of the analytical views.
pub open spec fn view_names() -> Seq<Seq<char>> {
    seq!["latest"@, "returns"@, "broker_net"@]
}

/// The descriptions of the views, in the order of their names.
pub open spec fn view_docs() -> Seq<Seq<char>> {
    seq![LATEST_DOC@, RETURNS_DOC@, BROKER_NET_DOC@]
}

/// The base tables that each view needs, in the order of their names.
pub open spec fn view_requires() -> Seq<Seq<Seq<char>>> {
    seq![
        seq!["companies"@, "prices"@, "indicators"@, "fundamentals"@, "summary"@],
        seq!["prices"@],
        seq!["broker_activity"@],
    ]
}

/// The numeric fields that `screen_stocks` may filter and sort on.
pub open spec fn numeric_fields() -> Seq<Seq<char>> {
    seq![
        "market_cap"@,
        "enterprise_value"@,
        "shares_outstanding"@,
        "free_float_pct"@,
        "trailing_pe"@,
        "forward_pe"@,
        "price_to_book"@,
        "dividend_yield"@,
        "beta"@,
        "return_on_equity"@,
        "profit_margins"@,
        "close"@,
        "volume"@,
        "rsi_14"@,
        "sma_50"@,
        "sma_200"@,
    ]
}

/// The text fields that `screen_stocks` may filter on.
pub open spec fn text_fields() -> Seq<Seq<char>> {
    seq!["sector"@]
}

/// The table functions permitted inside `run_query`. File and network readers
/// are deliberately not among them.
pub open spec fn safe_functions() -> Seq<Seq<char>> {
    seq!["generate_series"@, "range"@, "unnest"@, "values"@, "repeat"@, "json_each"@]
}

/// True if a query may reference `name`: the letter case does not matter.
pub open spec fn allowed(name: Seq<char>) -> bool {
    dataset_names().contains(lower(name)) || view_names().contains(lower(name))
}

/// True if `name` is a permitted table function: the letter case does not matter.
pub open spec fn safe_function(name: Seq<char>) -> bool {
    safe_functions().contains(lower(name))
}

/// The entry of `values` at the first position where `keys` holds `key`.
pub open spec fn entry(keys: Seq<Seq<char>>, values: Seq<Seq<char>>, key: Seq<char>) -> Option<
    Seq<char>,
>
    decreases keys.len(),
{
    if keys.len() == 0 {
        None
    } else if keys[0] == key {
        Some(values[0])
    } else {
        entry(keys.drop_first(), values.drop_first(), key)
    }
}

/// The description of a table or view.
pub open spec fn doc_of(name: Seq<char>) -> Option<Seq<char>> {
    match entry(dataset_names(), dataset_docs(), lower(name)) {
        Some(d) => Some(d),
        None => entry(view_names(), view_docs(), lower(name)),
    }
}

// ---- the catalog ----

/// The base tables. Keyed by `ticker` (and `date` for time series).
pub fn datasets() -> (r: Vec<Dataset>)
    ensures
        r@.map_values(|d: Dataset| d.name@) == dataset_names(),
        r@.map_values(|d: Dataset| d.kind) == dataset_kinds(),
        r@.map_values(|d: Dataset| d.doc@) == dataset_docs(),
{
    let mut r: Vec<Dataset> = Vec::new();
    r.push(Dataset { name: "prices", kind: Kind::TimeSeries, doc: PRICES_DOC });
    r.push(Dataset { name: "eod_summary", kind: Kind::TimeSeries, doc: EOD_SUMMARY_DOC });
    r.push(Dataset { name: "indicators", kind: Kind::TimeSeries, doc: INDICATORS_DOC });
    r.push(Dataset { name: "fundamentals", kind: Kind::TimeSeries, doc: FUNDAMENTALS_DOC });
    r.push(Dataset { name: "broker_activity", kind: Kind::TimeSeries, doc: BROKER_ACTIVITY_DOC });
    r.push(Dataset { name: "broker_distribution", kind: Kind::TimeSeries, doc: BROKER_DISTRIBUTION_DOC });
    r.push(Dataset { name: "broker_rankings", kind: Kind::TimeSeries, doc: BROKER_RANKINGS_DOC });
    r.push(Dataset { name: "announcements", kind: Kind::TimeSeries, doc: ANNOUNCEMENTS_DOC });
    r.push(Dataset { name: "companies", kind: Kind::Snapshot, doc: COMPANIES_DOC });
    r.push(Dataset { name: "summary", kind: Kind::Snapshot, doc: SUMMARY_DOC });
    r.push(Dataset { name: "analyst", kind: Kind::Snapshot, doc: ANALYST_DOC });
    r.push(Dataset { name: "ownership", kind: Kind::Snapshot, doc: OWNERSHIP_DOC });
    r
}

/// The analytical views built over the base tables.
pub fn views() -> (r: Vec<View>)
    ensures
        r@.map_values(|v: View| v.name@) == view_names(),
        r@.map_values(|v: View| slices(v.requires@)) == view_requires(),
        r@.map_values(|v: View| v.doc@) == view_docs(),
{
    let mut r: Vec<View> = Vec::new();
    let needs: Vec<&'static str> = vec!["companies", "prices", "indicators", "fundamentals", "summary"];
    assert(slices(needs@) =~= seq!["companies"@, "prices"@, "indicators"@, "fundamentals"@, "summary"@]);
    r.push(View { name: "latest", requires: needs, doc: LATEST_DOC });
    let needs: Vec<&'static str> = vec!["prices"];
    assert(slices(needs@) =~= seq!["prices"@]);
    r.push(View { name: "returns", requires: needs, doc: RETURNS_DOC });
    let needs: Vec<&'static str> = vec!["broker_activity"];
    assert(slices(needs@) =~= seq!["broker_activity"@]);
    r.push(View { name: "broker_net", requires: needs, doc: BROKER_NET_DOC });
    r
}

/// The numeric fields `screen_stocks` may filter and sort on.
pub fn screen_fields_num() -> (r: Vec<&'static str>)
    ensures
        slices(r@) == numeric_fields(),
{
    vec![
        "market_cap",
        "enterprise_value",
        "shares_outstanding",
        "free_float_pct",
        "trailing_pe",
        "forward_pe",
        "price_to_book",
        "dividend_yield",
        "beta",
        "return_on_equity",
        "profit_margins",
        "close",
        "volume",
        "rsi_14",
        "sma_50",
        "sma_200",
    ]
}

/// The text fields `screen_stocks` may filter on (equality or membership only).
pub fn screen_fields_text() -> (r: Vec<&'static str>)
    ensures
        slices(r@) == text_fields(),
{
    vec!["sector"]
}

fn safe_table_functions() -> (r: Vec<&'static str>)
    ensures
        slices(r@) == safe_functions(),
{
    vec!["generate_series", "range", "unnest", "values", "repeat", "json_each"]
}

/// True if `s` is one of `list`.
pub fn listed(list: &Vec<&'static str>, s: &str) -> (r: bool)
    ensures
        r == slices(list@).contains(s@),
{
    let mut i: usize = 0;
    while i < list.len()
        invariant
            i <= list@.len(),
            forall|j: int| 0 <= j < i ==> #[trigger] slices(list@)[j] != s@,
        decreases list@.len() - i,
    {
        if same_text(list[i], s) {
            assert(slices(list@)[i as int] == s@);
            return true;
        }
        i = i + 1;
    }
    false
}

/// True if `name` is a base table or view a query may reference.
#[must_use]
pub fn is_allowed_table(name: &str) -> (r: bool)
    ensures
        r == allowed(name@),
{
    let n = ascii_lower(name);
    let ds = datasets();
    let ghost names = ds@.map_values(|d: Dataset| d.name@);
    let mut i: usize = 0;
    while i < ds.len()
        invariant
            i <= ds@.len(),
            names == ds@.map_values(|d: Dataset| d.name@),
            names == dataset_names(),
            n@ == lower(name@),
            forall|j: int| 0 <= j < i ==> #[trigger] names[j] != n@,
        decreases ds@.len() - i,
    {
        if same_text(ds[i].name, n.as_str()) {
            assert(names[i as int] == n@);
            return true;
        }
        i = i + 1;
    }
    let vs = views();
    let ghost vnames = vs@.map_values(|v: View| v.name@);
    let mut k: usize = 0;
    while k < vs.len()
        invariant
            k <= vs@.len(),
            vnames == vs@.map_values(|v: View| v.name@),
            vnames == view_names(),
            n@ == lower(name@),
            forall|j: int| 0 <= j < k ==> #[trigger] vnames[j] != n@,
        decreases vs@.len() - k,
    {
        if same_text(vs[k].name, n.as_str()) {
            assert(vnames[k as int] == n@);
            return true;
        }
        k = k + 1;
    }
    false
}

/// True if `name` is a table function permitted inside `run_query`.
#[must_use]
pub fn is_safe_table_function(name: &str) -> (r: bool)
    ensures
        r == safe_function(name@),
{
    let n = ascii_lower(name);
    listed(&safe_table_functions(), n.as_str())
}

/// Human description for a table or view, if known.
#[must_use]
pub fn doc_for(name: &str) -> (r: Option<&'static str>)
    ensures
        match r {
            Some(d) => doc_of(name@) == Some(d@),
            None => doc_of(name@) is None,
        },
{
    let n = ascii_lower(name);
    let ds = datasets();
    let ghost names = ds@.map_values(|d: Dataset| d.name@);
    let ghost docs = ds@.map_values(|d: Dataset| d.doc@);
    let mut i: usize = 0;
    assert(names.skip(0) =~= names);
    assert(docs.skip(0) =~= docs);
    while i < ds.len()
        invariant
            i <= ds@.len(),
            names == ds@.map_values(|d: Dataset| d.name@),
            docs == ds@.map_values(|d: Dataset| d.doc@),
            names == dataset_names(),
            docs == dataset_docs(),
            n@ == lower(name@),
            entry(names, docs, n@) == entry(names.skip(i as int), docs.skip(i as int), n@),
        decreases ds@.len() - i,
    {
        if same_text(ds[i].name, n.as_str()) {
            return Some(ds[i].doc);
        }
        assert(names.skip(i as int).drop_first() =~= names.skip(i + 1));
        assert(docs.skip(i as int).drop_first() =~= docs.skip(i + 1));
        i = i + 1;
    }
    let vs = views();
    let ghost vnames = vs@.map_values(|v: View| v.name@);
    let ghost vdocs = vs@.map_values(|v: View| v.doc@);
    let mut k: usize = 0;
    assert(vnames.skip(0) =~= vnames);
    assert(vdocs.skip(0) =~= vdocs);
    while k < vs.len()
        invariant
            k <= vs@.len(),
            vnames == vs@.map_values(|v: View| v.name@),
            vdocs == vs@.map_values(|v: View| v.doc@),
            vnames == view_names(),
            vdocs == view_docs(),
            n@ == lower(name@),
            entry(dataset_names(), dataset_docs(), n@) is None,
            entry(vnames, vdocs, n@) == entry(vnames.skip(k as int), vdocs.skip(k as int), n@),
        decreases vs@.len() - k,
    {
        if same_text(vs[k].name, n.as_str()) {
            return Some(vs[k].doc);
        }
        assert(vnames.skip(k as int).drop_first() =~= vnames.skip(k + 1));
        assert(vdocs.skip(k as int).drop_first() =~= vdocs.skip(k + 1));
        k = k + 1;
    }
    None
}

// ---- laws ----

/// The names of all tables and views.
pub open spec fn catalog_names() -> Seq<Seq<char>> {
    dataset_names() + view_names()
}

/// No name of the catalog is used twice.
pub proof fn law_names_are_unique()
    ensures
        catalog_names().no_duplicates(),
{
    reveal_strlit("prices");
    reveal_strlit("eod_summary");
    reveal_strlit("indicators");
    reveal_strlit("fundamentals");
    reveal_strlit("broker_activity");
    reveal_strlit("broker_distribution");
    reveal_strlit("broker_rankings");
    reveal_strlit("announcements");
    reveal_strlit("companies");
    reveal_strlit("summary");
    reveal_strlit("analyst");
    reveal_strlit("ownership");
    reveal_strlit("latest");
    reveal_strlit("returns");
    reveal_strlit("broker_net");
    let c = catalog_names();
    assert(c[0].len() == 6 && c[0][0] == 'p');
    assert(c[1].len() == 11 && c[1][0] == 'e');
    assert(c[2].len() == 10 && c[2][0] == 'i');
    assert(c[3].len() == 12 && c[3][0] == 'f');
    assert(c[4].len() == 15 && c[4][0] == 'b');
    assert(c[5].len() == 19 && c[5][0] == 'b');
    assert(c[6].len() == 15 && c[6][0] == 'b');
    assert(c[7].len() == 13 && c[7][0] == 'a');
    assert(c[8].len() == 9 && c[8][0] == 'c');
    assert(c[9].len() == 7 && c[9][0] == 's');
    assert(c[10].len() == 7 && c[10][0] == 'a');
    assert(c[11].len() == 9 && c[11][0] == 'o');
    assert(c[12].len() == 6 && c[12][0] == 'l');
    assert(c[13].len() == 7 && c[13][0] == 'r');
    assert(c[14].len() == 10 && c[14][0] == 'b');
    assert(c[4][7] == 'a' && c[6][7] == 'r');
    assert forall|i: int, j: int| 0 <= i < c.len() && 0 <= j < c.len() && i != j implies c[i]
        != c[j] by {
    }
}

proof fn lemma_lower_case(s: Seq<char>)
    requires
        forall|i: int| 0 <= i < s.len() ==> !('A' <= #[trigger] s[i] && s[i] <= 'Z'),
    ensures
        lower(s) == s,
{
    assert(lower(s) =~= s);
}

/// Every table and view of the catalog may be queried, in any letter case.
pub proof fn law_allowlist_covers_the_catalog(i: int, name: Seq<char>)
    requires
        0 <= i < catalog_names().len(),
        lower(name) == lower(catalog_names()[i]),
    ensures
        allowed(name),
{
    reveal_strlit("prices");
    reveal_strlit("eod_summary");
    reveal_strlit("indicators");
    reveal_strlit("fundamentals");
    reveal_strlit("broker_activity");
    reveal_strlit("broker_distribution");
    reveal_strlit("broker_rankings");
    reveal_strlit("announcements");
    reveal_strlit("companies");
    reveal_strlit("summary");
    reveal_strlit("analyst");
    reveal_strlit("ownership");
    reveal_strlit("latest");
    reveal_strlit("returns");
    reveal_strlit("broker_net");
    lemma_lower_case(catalog_names()[i]);
    if i < dataset_names().len() {
        assert(dataset_names()[i] == lower(name));
    } else {
        assert(view_names()[i - dataset_names().len()] == lower(name));
    }
}

/// Every view is built from base tables of the catalog.
pub proof fn law_views_require_datasets(i: int, j: int)
    requires
        0 <= i < view_requires().len(),
        0 <= j < view_requires()[i].len(),
    ensures
        dataset_names().contains(view_requires()[i][j]),
{
    let d = dataset_names();
    assert(d.contains(d[0]) && d.contains(d[2]) && d.contains(d[3]) && d.contains(d[4])
        && d.contains(d[8]) && d.contains(d[9]));
}

/// A name is described exactly when a query may reference it.
pub proof fn law_described_iff_allowed(name: Seq<char>)
    ensures
        doc_of(name) is Some <==> allowed(name),
{
    lemma_entry(dataset_names(), dataset_docs(), lower(name));
    lemma_entry(view_names(), view_docs(), lower(name));
}

proof fn lemma_entry(keys: Seq<Seq<char>>, values: Seq<Seq<char>>, key: Seq<char>)
    ensures
        entry(keys, values, key) is Some <==> keys.contains(key),
    decreases keys.len(),
{
    if keys.len() > 0 && keys[0] != key {
        let t = keys.drop_first();
        lemma_entry(t, values.drop_first(), key);
        if keys.contains(key) {
            let k = choose|k: int| 0 <= k < keys.len() && keys[k] == key;
            assert(t[k - 1] == key);
        }
        if t.contains(key) {
            let k = choose|k: int| 0 <= k < t.len() && t[k] == key;
            assert(keys[k + 1] == key);
        }
    }
}

/// In a list without repetitions every key has the value at its own position.
pub proof fn lemma_entry_at(keys: Seq<Seq<char>>, values: Seq<Seq<char>>, k: int)
    requires
        keys.no_duplicates(),
        keys.len() == values.len(),
        0 <= k < keys.len(),
    ensures
        entry(keys, values, keys[k]) == Some(values[k]),
    decreases keys.len(),
{
    if k > 0 {
        assert(keys[0] != keys[k]);
        let t = keys.drop_first();
        assert(t.no_duplicates());
        lemma_entry_at(t, values.drop_first(), k - 1);
        assert(t[k - 1] == keys[k]);
    }
}

/// The names of the tables and of the views, each list by itself, are unique, and no
/// table is named like a view.
proof fn lemma_unique_lists()
    ensures
        dataset_names().no_duplicates(),
        view_names().no_duplicates(),
        forall|i: int, j: int|
            0 <= i < dataset_names().len() && 0 <= j < view_names().len()
                ==> #[trigger] dataset_names()[i] != #[trigger] view_names()[j],
{
    law_names_are_unique();
    let c = catalog_names();
    let n = dataset_names().len() as int;
    assert forall|i: int, j: int|
        0 <= i < dataset_names().len() && 0 <= j < dataset_names().len() && i != j implies
        #[trigger] dataset_names()[i] != #[trigger] dataset_names()[j] by {
        assert(c[i] != c[j]);
    }
    assert forall|i: int, j: int|
        0 <= i < view_names().len() && 0 <= j < view_names().len() && i != j implies
        #[trigger] view_names()[i] != #[trigger] view_names()[j] by {
        assert(c[n + i] != c[n + j]);
    }
    assert forall|i: int, j: int|
        0 <= i < dataset_names().len() && 0 <= j < view_names().len() implies
        #[trigger] dataset_names()[i] != #[trigger] view_names()[j] by {
        assert(c[i] != c[n + j]);
    }
}

/// A query may name twelve tables and three views, in any letter case, and nothing else.
pub proof fn law_twelve_tables_and_three_views_are_served(name: Seq<char>)
    ensures
        allowed(name) <==> {
            ||| lower(name) == "prices"@
            ||| lower(name) == "eod_summary"@
            ||| lower(name) == "indicators"@
            ||| lower(name) == "fundamentals"@
            ||| lower(name) == "broker_activity"@
            ||| lower(name) == "broker_distribution"@
            ||| lower(name) == "broker_rankings"@
            ||| lower(name) == "announcements"@
            ||| lower(name) == "companies"@
            ||| lower(name) == "summary"@
            ||| lower(name) == "analyst"@
            ||| lower(name) == "ownership"@
            ||| lower(name) == "latest"@
            ||| lower(name) == "returns"@
            ||| lower(name) == "broker_net"@
        },
{
    let d = dataset_names();
    let v = view_names();
    let x = lower(name);
    assert(d[0] == "prices"@);
    assert(d[1] == "eod_summary"@);
    assert(d[2] == "indicators"@);
    assert(d[3] == "fundamentals"@);
    assert(d[4] == "broker_activity"@);
    assert(d[5] == "broker_distribution"@);
    assert(d[6] == "broker_rankings"@);
    assert(d[7] == "announcements"@);
    assert(d[8] == "companies"@);
    assert(d[9] == "summary"@);
    assert(d[10] == "analyst"@);
    assert(d[11] == "ownership"@);
    assert(v[0] == "latest"@);
    assert(v[1] == "returns"@);
    assert(v[2] == "broker_net"@);
    if d.contains(x) {
        let k = choose|k: int| 0 <= k < d.len() && d[k] == x;
        assert(0 <= k < 12);
    }
    if v.contains(x) {
        let k = choose|k: int| 0 <= k < v.len() && v[k] == x;
        assert(0 <= k < 3);
    }
}

/// Each description stays with the relation that it describes, whatever the letter case
/// of the name that is asked for; a name outside the catalog has none.
pub proof fn law_each_relation_has_its_own_description(name: Seq<char>)
    ensures
        lower(name) == "prices"@ ==> doc_of(name) == Some(
            "Daily OHLCV (Yahoo-adjusted). Grain: ticker+date. Primary price source."@,
        ),
        lower(name) == "eod_summary"@ ==> doc_of(name) == Some(
            "Official IDX end-of-day summary incl. foreign_buy/foreign_sell and traded value. Grain: ticker+date."@,
        ),
        lower(name) == "indicators"@ ==> doc_of(name) == Some(
            "Daily technical indicators (RSI, MACD, SMA/EMA, Bollinger, ATR, VWAP). Grain: ticker+date; NULL during warmup."@,
        ),
        lower(name) == "fundamentals"@ ==> doc_of(name) == Some(
            "Daily fundamentals snapshot: market_cap, enterprise_value, shares_outstanding, free_float_pct, latest dividend. Grain: ticker+date."@,
        ),
        lower(name) == "broker_activity"@ ==> doc_of(name) == Some(
            "Per-broker buy/sell flow (bandarmology). Grain: ticker+date+broker_code+side (B|S). value & volume_lot are positive magnitudes; net = buy - sell."@,
        ),
        lower(name) == "broker_distribution"@ ==> doc_of(name) == Some(
            "Broker-to-broker distribution graph (who traded against whom), as delivered by the ETL — typically exploded edges (ticker, date, side, source/counterparty broker, value, volume). Call describe_schema for the live columns."@,
        ),
        lower(name) == "broker_rankings"@ ==> doc_of(name) == Some(
            "Market-wide broker league table by traded value/volume/frequency. Grain: broker_code+date. NO ticker column."@,
        ),
        lower(name) == "announcements"@ ==> doc_of(name) == Some(
            "IDX corporate announcements and news. Grain: one row per announcement. source = announcement|news; titles are Indonesian."@,
        ),
        lower(name) == "companies"@ ==> doc_of(name) == Some(
            "Company profile: name, sector, sub_sector, exchange, listing board, IPO date, background. Latest per ticker."@,
        ),
        lower(name) == "summary"@ ==> doc_of(name) == Some(
            "Yahoo fundamentals snapshot. Latest per ticker. WARNING: PE/price_to_book and other valuation ratios are unreliable for IDX names."@,
        ),
        lower(name) == "analyst"@ ==> doc_of(name) == Some(
            "Analyst recommendation counts and price/EPS/revenue targets. Latest per ticker."@,
        ),
        lower(name) == "ownership"@ ==> doc_of(name) == Some(
            "KSEI depository holders with >=1% of shares, local/foreign split. Latest per ticker."@,
        ),
        lower(name) == "latest"@ ==> doc_of(name) == Some(
            "One row per ticker: latest close/volume, fundamentals, yf ratios, and key indicators joined. Built for cross-sectional screening."@,
        ),
        lower(name) == "returns"@ ==> doc_of(name) == Some(
            "One row per ticker: trailing % returns (ret_1w/1m/3m/6m/ytd/1y/3y) and annualized cagr_3y from close prices."@,
        ),
        lower(name) == "broker_net"@ ==> doc_of(name) == Some(
            "One row per ticker+date+broker_code: buy/sell/net value and volume. Base for accumulation, flip, and market-maker analysis."@,
        ),
        !allowed(name) ==> doc_of(name) is None,
{
    lemma_unique_lists();
    law_described_iff_allowed(name);
    let x = lower(name);
    let d = dataset_names();
    let v = view_names();
    assert forall|k: int| 0 <= k < d.len() && #[trigger] d[k] == x implies doc_of(name) == Some(
        dataset_docs()[k],
    ) by {
        lemma_entry_at(d, dataset_docs(), k);
    }
    assert forall|k: int| 0 <= k < v.len() && #[trigger] v[k] == x implies doc_of(name) == Some(
        view_docs()[k],
    ) by {
        lemma_entry_at(v, view_docs(), k);
        lemma_entry(d, dataset_docs(), x);
        assert(!d.contains(x));
    }
    assert(d[0] == "prices"@);
    assert(d[1] == "eod_summary"@);
    assert(d[2] == "indicators"@);
    assert(d[3] == "fundamentals"@);
    assert(d[4] == "broker_activity"@);
    assert(d[5] == "broker_distribution"@);
    assert(d[6] == "broker_rankings"@);
    assert(d[7] == "announcements"@);
    assert(d[8] == "companies"@);
    assert(d[9] == "summary"@);
    assert(d[10] == "analyst"@);
    assert(d[11] == "ownership"@);
    assert(v[0] == "latest"@);
    assert(v[1] == "returns"@);
    assert(v[2] == "broker_net"@);
}

/// Companies, the Yahoo summary, analysts and ownership are snapshots; every other table
/// is a time series.
pub proof fn law_four_tables_are_snapshots(i: int)
    requires
        0 <= i < dataset_names().len(),
    ensures
        dataset_kinds().len() == dataset_names().len(),
        dataset_kinds()[i] == Kind::Snapshot <==> {
            ||| dataset_names()[i] == "companies"@
            ||| dataset_names()[i] == "summary"@
            ||| dataset_names()[i] == "analyst"@
            ||| dataset_names()[i] == "ownership"@
        },
        dataset_kinds()[i] == Kind::TimeSeries <==> {
            ||| dataset_names()[i] == "prices"@
            ||| dataset_names()[i] == "eod_summary"@
            ||| dataset_names()[i] == "indicators"@
            ||| dataset_names()[i] == "fundamentals"@
            ||| dataset_names()[i] == "broker_activity"@
            ||| dataset_names()[i] == "broker_distribution"@
            ||| dataset_names()[i] == "broker_rankings"@
            ||| dataset_names()[i] == "announcements"@
        },
{
    lemma_unique_lists();
    let d = dataset_names();
    assert(d[0] == "prices"@);
    assert(d[1] == "eod_summary"@);
    assert(d[2] == "indicators"@);
    assert(d[3] == "fundamentals"@);
    assert(d[4] == "broker_activity"@);
    assert(d[5] == "broker_distribution"@);
    assert(d[6] == "broker_rankings"@);
    assert(d[7] == "announcements"@);
    assert(d[8] == "companies"@);
    assert(d[9] == "summary"@);
    assert(d[10] == "analyst"@);
    assert(d[11] == "ownership"@);
    assert(0 <= i < 12);
}

/// The snapshot view joins five tables, the returns need the prices, and the net flow
/// needs the broker activity.
pub proof fn law_each_view_needs_its_tables(i: int, table: Seq<char>)
    requires
        0 <= i < view_names().len(),
    ensures
        view_requires().len() == view_names().len(),
        view_names()[i] == "latest"@ ==> (view_requires()[i].contains(table) <==> {
            ||| table == "companies"@
            ||| table == "prices"@
            ||| table == "indicators"@
            ||| table == "fundamentals"@
            ||| table == "summary"@
        }),
        view_names()[i] == "returns"@ ==> (view_requires()[i].contains(table) <==> table
            == "prices"@),
        view_names()[i] == "broker_net"@ ==> (view_requires()[i].contains(table) <==> table
            == "broker_activity"@),
{
    lemma_unique_lists();
    let v = view_names();
    assert(v[0] == "latest"@ && v[1] == "returns"@ && v[2] == "broker_net"@);
    let n = view_requires()[i];
    let a = view_requires()[0];
    assert(a[0] == "companies"@ && a[1] == "prices"@ && a[2] == "indicators"@ && a[3]
        == "fundamentals"@ && a[4] == "summary"@);
    assert(view_requires()[1][0] == "prices"@);
    assert(view_requires()[2][0] == "broker_activity"@);
    if n.contains(table) {
        let k = choose|k: int| 0 <= k < n.len() && n[k] == table;
        assert(n[k] == table);
    }
}

/// A screen may filter and sort on sixteen numeric fields and one text field.
pub proof fn law_seventeen_fields_are_screenable(field: Seq<char>)
    ensures
        numeric_fields().contains(field) <==> {
            ||| field == "market_cap"@
            ||| field == "enterprise_value"@
            ||| field == "shares_outstanding"@
            ||| field == "free_float_pct"@
            ||| field == "trailing_pe"@
            ||| field == "forward_pe"@
            ||| field == "price_to_book"@
            ||| field == "dividend_yield"@
            ||| field == "beta"@
            ||| field == "return_on_equity"@
            ||| field == "profit_margins"@
            ||| field == "close"@
            ||| field == "volume"@
            ||| field == "rsi_14"@
            ||| field == "sma_50"@
            ||| field == "sma_200"@
        },
        text_fields().contains(field) <==> field == "sector"@,
{
    let f = numeric_fields();
    assert(f[0] == "market_cap"@);
    assert(f[1] == "enterprise_value"@);
    assert(f[2] == "shares_outstanding"@);
    assert(f[3] == "free_float_pct"@);
    assert(f[4] == "trailing_pe"@);
    assert(f[5] == "forward_pe"@);
    assert(f[6] == "price_to_book"@);
    assert(f[7] == "dividend_yield"@);
    assert(f[8] == "beta"@);
    assert(f[9] == "return_on_equity"@);
    assert(f[10] == "profit_margins"@);
    assert(f[11] == "close"@);
    assert(f[12] == "volume"@);
    assert(f[13] == "rsi_14"@);
    assert(f[14] == "sma_50"@);
    assert(f[15] == "sma_200"@);
    assert(text_fields()[0] == "sector"@);
    if f.contains(field) {
        let k = choose|k: int| 0 <= k < f.len() && f[k] == field;
        assert(0 <= k < 16);
    }
}

/// Six table functions are permitted, in any letter case; none of them reads a file or
/// reaches the network.
pub proof fn law_six_table_functions_are_permitted(name: Seq<char>)
    ensures
        safe_function(name) <==> {
            ||| lower(name) == "generate_series"@
            ||| lower(name) == "range"@
            ||| lower(name) == "unnest"@
            ||| lower(name) == "values"@
            ||| lower(name) == "repeat"@
            ||| lower(name) == "json_each"@
        },
{
    let f = safe_functions();
    assert(f[0] == "generate_series"@);
    assert(f[1] == "range"@);
    assert(f[2] == "unnest"@);
    assert(f[3] == "values"@);
    assert(f[4] == "repeat"@);
    assert(f[5] == "json_each"@);
    let x = lower(name);
    if f.contains(x) {
        let k = choose|k: int| 0 <= k < f.len() && f[k] == x;
        assert(0 <= k < 6);
    }
}

} // verus!
