//! Building the serving database: which statements load it, which views are
//! built over what was loaded, and how the serving files are named and found.

use vstd::prelude::*;
use vstd::string::*;

use crate::catalog::dataset_kinds;
use crate::catalog::dataset_names;
use crate::catalog::datasets;
use crate::catalog::catalog_names;
use crate::catalog::entry;
use crate::catalog::law_names_are_unique;
use crate::catalog::law_views_require_datasets;
use crate::catalog::lemma_entry_at;
use crate::catalog::slices;
use crate::catalog::view_names;
use crate::catalog::view_requires;
use crate::catalog::views;
use crate::catalog::Dataset;
use crate::catalog::Kind;
use crate::config::DataBase;
use crate::config::DataBaseView;
use crate::errors::EngineError;
use crate::errors::EngineErrorView;
use crate::text::decimal;
use crate::text::ends;
use crate::text::ends_with;
use crate::text::find_char;
use crate::text::first_index;
use crate::text::is_digit;
use crate::text::is_one_of;
use crate::text::law_parts_of_texts;
use crate::text::law_stripping_takes_the_tail;
use crate::text::lemma_decimal_value;
use crate::text::lemma_first_index;
use crate::text::lemma_first_index_at;
use crate::text::opt_text;
use crate::text::parse_unsigned;
use crate::text::push_decimal;
use crate::text::repeated;
use crate::text::same_text;
use crate::text::starts;
use crate::text::starts_with;
use crate::text::str_text;
use crate::text::strip_tail;
use crate::text::texts;
use crate::text::trim_end_char;
use crate::text::unsigned_value;

verus! {

/// One row per ticker with its latest values.
pub const LATEST_VIEW: &'static str = "\
CREATE TABLE latest AS
WITH p AS (
  SELECT ticker, close, volume, date AS price_date
  FROM eod_summary QUALIFY row_number() OVER (PARTITION BY ticker ORDER BY date DESC) = 1
),
i AS (
  SELECT ticker, rsi_14, sma_50, sma_200
  FROM indicators QUALIFY row_number() OVER (PARTITION BY ticker ORDER BY date DESC) = 1
),
f AS (
  SELECT ticker, market_cap, enterprise_value, shares_outstanding, free_float_pct
  FROM fundamentals QUALIFY row_number() OVER (PARTITION BY ticker ORDER BY date DESC) = 1
)
SELECT
  c.ticker, c.company_name, c.sector, c.sub_sector,
  p.close, p.volume, p.price_date,
  f.market_cap, f.enterprise_value, f.shares_outstanding, f.free_float_pct,
  s.trailing_pe, s.forward_pe, s.price_to_book, s.dividend_yield, s.beta,
  s.return_on_equity, s.profit_margins,
  i.rsi_14, i.sma_50, i.sma_200
FROM companies c
LEFT JOIN p ON p.ticker = c.ticker
LEFT JOIN f ON f.ticker = c.ticker
LEFT JOIN summary s ON s.ticker = c.ticker
LEFT JOIN i ON i.ticker = c.ticker
ORDER BY c.ticker;";

/// Trailing and annualized returns per ticker.
pub const RETURNS_VIEW: &'static str = "\
CREATE TABLE returns AS
WITH lc AS (
  SELECT ticker, close, date AS as_of
  FROM eod_summary QUALIFY row_number() OVER (PARTITION BY ticker ORDER BY date DESC) = 1
)
SELECT lc.ticker, lc.as_of, lc.close,
  100.0 * (lc.close / NULLIF(w1w.close, 0) - 1) AS ret_1w,
  100.0 * (lc.close / NULLIF(w1m.close, 0) - 1) AS ret_1m,
  100.0 * (lc.close / NULLIF(w3m.close, 0) - 1) AS ret_3m,
  100.0 * (lc.close / NULLIF(w6m.close, 0) - 1) AS ret_6m,
  100.0 * (lc.close / NULLIF(wyt.close, 0) - 1) AS ret_ytd,
  100.0 * (lc.close / NULLIF(w1y.close, 0) - 1) AS ret_1y,
  100.0 * (lc.close / NULLIF(w3y.close, 0) - 1) AS ret_3y,
  100.0 * (power(lc.close / NULLIF(w3y.close, 0), 1.0 / 3.0) - 1) AS cagr_3y
FROM lc
ASOF LEFT JOIN eod_summary w1w ON w1w.ticker = lc.ticker AND w1w.date <= lc.as_of - INTERVAL '7 days'
ASOF LEFT JOIN eod_summary w1m ON w1m.ticker = lc.ticker AND w1m.date <= lc.as_of - INTERVAL '1 month'
ASOF LEFT JOIN eod_summary w3m ON w3m.ticker = lc.ticker AND w3m.date <= lc.as_of - INTERVAL '3 months'
ASOF LEFT JOIN eod_summary w6m ON w6m.ticker = lc.ticker AND w6m.date <= lc.as_of - INTERVAL '6 months'
ASOF LEFT JOIN eod_summary wyt ON wyt.ticker = lc.ticker AND wyt.date <  date_trunc('year', lc.as_of)
ASOF LEFT JOIN eod_summary w1y ON w1y.ticker = lc.ticker AND w1y.date <= lc.as_of - INTERVAL '1 year'
ASOF LEFT JOIN eod_summary w3y ON w3y.ticker = lc.ticker AND w3y.date <= lc.as_of - INTERVAL '3 years'
ORDER BY lc.ticker;";

/// Net flow per ticker, day and broker.
pub const BROKER_NET_VIEW: &'static str = "\
CREATE TABLE broker_net AS
SELECT ticker, date, broker_code,
  sum(value) FILTER (WHERE side = 'B') AS buy_value,
  sum(value) FILTER (WHERE side = 'S') AS sell_value,
  coalesce(sum(value) FILTER (WHERE side = 'B'), 0) - coalesce(sum(value) FILTER (WHERE side = 'S'), 0) AS net_value,
  sum(volume_lot) FILTER (WHERE side = 'B') AS buy_volume_lot,
  sum(volume_lot) FILTER (WHERE side = 'S') AS sell_volume_lot,
  coalesce(sum(volume_lot) FILTER (WHERE side = 'B'), 0) - coalesce(sum(volume_lot) FILTER (WHERE side = 'S'), 0) AS net_volume_lot
FROM broker_activity
GROUP BY ticker, date, broker_code
ORDER BY ticker, date;";

/// How to (re)build the serving database from Parquet.
pub struct Source {
    /// Data root, e.g. `./data` or `r2://idx-data`.
    pub base: String,
    /// Statement replayed into each loader, for R2.
    pub secret_sql: Option<String>,
}

/// A statement that creates one relation of the serving database.
#[derive(Debug)]
pub struct LoadStatement {
    pub name: String,
    pub sql: String,
}

// ---- models ----

/// The root of a data source, without trailing slashes.
pub open spec fn root_of(db: DataBaseView) -> Seq<char> {
    match db {
        DataBaseView::Local(dir) => strip_tail(dir, '/'),
        DataBaseView::R2 { base, .. } => strip_tail(base, '/'),
    }
}

/// The statement that gives the engine access to a data source, if it needs one.
pub open spec fn secret_of(db: DataBaseView) -> Option<Seq<char>> {
    match db {
        DataBaseView::Local(_) => None,
        DataBaseView::R2 { account_id, key_id, secret, .. } => Some(
            "CREATE OR REPLACE SECRET r2 (TYPE r2, KEY_ID '"@ + key_id + "', SECRET '"@ + secret
                + "', ACCOUNT_ID '"@ + account_id + "');"@,
        ),
    }
}

/// The Parquet files of a dataset.
pub open spec fn glob_of(base: Seq<char>, name: Seq<char>, kind: Kind) -> Seq<char> {
    match kind {
        Kind::TimeSeries => base + "/"@ + name + "/date=*/*.parquet"@,
        Kind::Snapshot => base + "/"@ + name + "/latest.parquet"@,
    }
}

/// The statement that loads a dataset into a table.
pub open spec fn load_sql(base: Seq<char>, name: Seq<char>, kind: Kind) -> Seq<char> {
    "CREATE OR REPLACE TABLE \""@ + name + "\" AS SELECT * FROM read_parquet('"@ + glob_of(
        base,
        name,
        kind,
    ) + "'"@ + (match kind {
        Kind::TimeSeries => ", hive_partitioning=true"@,
        Kind::Snapshot => Seq::empty(),
    }) + ")"@
}

/// The statements that load the datasets of the catalog, in the order of their names.
pub open spec fn load_sqls(base: Seq<char>) -> Seq<Seq<char>> {
    Seq::new(
        dataset_names().len(),
        |i: int| load_sql(base, dataset_names()[i], dataset_kinds()[i]),
    )
}

/// What the loader runs before the first load.
pub open spec fn setup_of(secret: Option<Seq<char>>) -> Seq<Seq<char>> {
    match secret {
        Some(s) => seq![LOADER_SQL@, s],
        None => seq![LOADER_SQL@],
    }
}

/// The names of some statements' relations.
pub open spec fn names_of(v: Seq<LoadStatement>) -> Seq<Seq<char>> {
    v.map_values(|s: LoadStatement| s.name@)
}

/// The texts of some statements.
pub open spec fn sqls_of(v: Seq<LoadStatement>) -> Seq<Seq<char>> {
    v.map_values(|s: LoadStatement| s.sql@)
}

/// The names whose statement succeeded, in order. A statement without an outcome did
/// not succeed.
pub open spec fn succeeded(names: Seq<Seq<char>>, ok: Seq<bool>) -> Seq<Seq<char>>
    decreases names.len(),
{
    if names.len() == 0 {
        Seq::empty()
    } else {
        let init = succeeded(names.drop_last(), ok);
        if names.len() <= ok.len() && ok[names.len() - 1] {
            init.push(names.last())
        } else {
            init
        }
    }
}

/// The statement that builds a view.
pub open spec fn view_sql_of(name: Seq<char>) -> Option<Seq<char>> {
    if name == "latest"@ {
        Some(LATEST_VIEW@)
    } else if name == "returns"@ {
        Some(RETURNS_VIEW@)
    } else if name == "broker_net"@ {
        Some(BROKER_NET_VIEW@)
    } else {
        None
    }
}

/// True if every name of `needs` is among `tables`.
pub open spec fn all_among(needs: Seq<Seq<char>>, tables: Seq<Seq<char>>) -> bool {
    forall|j: int| 0 <= j < needs.len() ==> tables.contains(#[trigger] needs[j])
}

/// The views, out of the first `n` of the catalog, whose inputs are all loaded
/// and whose statement is known.
pub open spec fn buildable(tables: Seq<Seq<char>>, n: nat) -> Seq<Seq<char>>
    decreases n,
{
    if n == 0 {
        Seq::empty()
    } else {
        let init = buildable(tables, (n - 1) as nat);
        let i = n - 1;
        if all_among(view_requires()[i], tables) && view_sql_of(view_names()[i]) is Some {
            init.push(view_names()[i])
        } else {
            init
        }
    }
}

// ---- loading ----

/// Keeps the loader from taking every core.
pub const LOADER_SQL: &'static str = "SET threads TO 4;";

impl Source {
    /// The source that a configured data location gives.
    pub fn new(db: &DataBase) -> (r: Source)
        ensures
            r.base@ == root_of(db@),
            opt_text(r.secret_sql) == secret_of(db@),
    {
        match db {
            DataBase::Local(dir) => Source {
                base: trim_end_char(dir.as_str(), '/'),
                secret_sql: None,
            },
            DataBase::R2 { base, account_id, key_id, secret } => {
                let mut s = "CREATE OR REPLACE SECRET r2 (TYPE r2, KEY_ID '".to_string();
                s.append(key_id.as_str());
                s.append("', SECRET '");
                s.append(secret.as_str());
                s.append("', ACCOUNT_ID '");
                s.append(account_id.as_str());
                s.append("');");
                Source { base: trim_end_char(base.as_str(), '/'), secret_sql: Some(s) }
            },
        }
    }

    /// What the loader runs before the first load, in order.
    pub fn setup_statements(&self) -> (r: Vec<String>)
        ensures
            texts(r@) == setup_of(opt_text(self.secret_sql)),
    {
        let mut out: Vec<String> = Vec::new();
        out.push(LOADER_SQL.to_string());
        match &self.secret_sql {
            Some(s) => {
                out.push(s.clone());
            },
            None => {},
        }
        assert(texts(out@) =~= setup_of(opt_text(self.secret_sql)));
        out
    }

    /// The Parquet files of a dataset.
    pub fn glob(&self, name: &str, kind: Kind) -> (r: String)
        ensures
            r@ == glob_of(self.base@, name@, kind),
    {
        let mut s = self.base.clone();
        s.append("/");
        s.append(name);
        match kind {
            Kind::TimeSeries => {
                s.append("/date=*/*.parquet");
            },
            Kind::Snapshot => {
                s.append("/latest.parquet");
            },
        }
        s
    }

    /// The statement that loads one dataset.
    pub fn load_statement(&self, name: &str, kind: Kind) -> (r: String)
        ensures
            r@ == load_sql(self.base@, name@, kind),
    {
        let mut s = "CREATE OR REPLACE TABLE \"".to_string();
        s.append(name);
        s.append("\" AS SELECT * FROM read_parquet('");
        s.append(self.glob(name, kind).as_str());
        s.append("'");
        match kind {
            Kind::TimeSeries => {
                s.append(", hive_partitioning=true");
            },
            Kind::Snapshot => {},
        }
        s.append(")");
        s
    }

    /// One statement per dataset of the catalog, in its order.
    pub fn load_statements(&self) -> (r: Vec<LoadStatement>)
        ensures
            names_of(r@) == dataset_names(),
            sqls_of(r@) == load_sqls(self.base@),
    {
        let ds = datasets();
        let ghost names = ds@.map_values(|d: Dataset| d.name@);
        let ghost kinds = ds@.map_values(|d: Dataset| d.kind);
        let mut out: Vec<LoadStatement> = Vec::new();
        let mut i: usize = 0;
        while i < ds.len()
            invariant
                i <= ds@.len(),
                names == ds@.map_values(|d: Dataset| d.name@),
                kinds == ds@.map_values(|d: Dataset| d.kind),
                out@.len() == i,
                forall|j: int| 0 <= j < i ==> (#[trigger] out@[j]).name@ == names[j],
                forall|j: int|
                    0 <= j < i ==> (#[trigger] out@[j]).sql@ == load_sql(
                        self.base@,
                        names[j],
                        kinds[j],
                    ),
            decreases ds@.len() - i,
        {
            let d = &ds[i];
            assert(names[i as int] == d.name@);
            assert(kinds[i as int] == d.kind);
            out.push(
                LoadStatement {
                    name: d.name.to_string(),
                    sql: self.load_statement(d.name, d.kind),
                },
            );
            i = i + 1;
        }
        assert(names_of(out@) =~= dataset_names());
        assert(sqls_of(out@) =~= load_sqls(self.base@));
        out
    }
}

/// The names whose statement succeeded, in order.
pub fn loaded(statements: &Vec<LoadStatement>, ok: &Vec<bool>) -> (r: Vec<String>)
    ensures
        texts(r@) == succeeded(names_of(statements@), ok@),
{
    let ghost names = names_of(statements@);
    let mut out: Vec<String> = Vec::new();
    let mut i: usize = 0;
    assert(names.take(0) =~= Seq::empty());
    assert(texts(out@) =~= Seq::empty());
    while i < statements.len()
        invariant
            i <= statements@.len(),
            names == names_of(statements@),
            texts(out@) == succeeded(names.take(i as int), ok@),
        decreases statements@.len() - i,
    {
        let ghost before = texts(out@);
        proof {
            assert(names.take(i + 1).drop_last() =~= names.take(i as int));
            assert(names.take(i + 1).last() == statements@[i as int].name@);
        }
        if i < ok.len() && ok[i] {
            out.push(statements[i].name.clone());
            assert(texts(out@) =~= before.push(statements@[i as int].name@));
        }
        i = i + 1;
    }
    assert(names.take(names.len() as int) =~= names);
    out
}

/// Refuses a serving database without any table.
pub fn require_loaded(tables: &Vec<String>, base: &str) -> (r: Result<(), EngineError>)
    ensures
        match r {
            Ok(_) => tables@.len() > 0,
            Err(e) => tables@.len() == 0 && e@ == EngineErrorView::NoDatasets(base@),
        },
{
    if tables.len() == 0 {
        Err(EngineError::NoDatasets(base.to_string()))
    } else {
        Ok(())
    }
}

/// The statement that builds the view `name`.
pub fn view_sql(name: &str) -> (r: Option<&'static str>)
    ensures
        match r {
            Some(s) => view_sql_of(name@) == Some(s@),
            None => view_sql_of(name@) is None,
        },
{
    if same_text(name, "latest") {
        Some(LATEST_VIEW)
    } else if same_text(name, "returns") {
        Some(RETURNS_VIEW)
    } else if same_text(name, "broker_net") {
        Some(BROKER_NET_VIEW)
    } else {
        None
    }
}

fn all_loaded(needs: &Vec<&'static str>, tables: &Vec<String>) -> (r: bool)
    ensures
        r == all_among(slices(needs@), texts(tables@)),
{
    let mut i: usize = 0;
    while i < needs.len()
        invariant
            i <= needs@.len(),
            forall|j: int| 0 <= j < i ==> texts(tables@).contains(#[trigger] slices(needs@)[j]),
        decreases needs@.len() - i,
    {
        assert(slices(needs@)[i as int] == needs@[i as int]@);
        if !is_one_of(needs[i], tables) {
            return false;
        }
        i = i + 1;
    }
    true
}

/// The statements of the views whose required tables are all present, in the
/// order of the catalog.
pub fn view_statements(tables: &Vec<String>) -> (r: Vec<LoadStatement>)
    ensures
        names_of(r@) == buildable(texts(tables@), view_names().len()),
        forall|i: int|
            0 <= i < r@.len() ==> view_sql_of((#[trigger] r@[i]).name@) == Some(r@[i].sql@),
{
    let vs = views();
    let ghost vnames = vs@.map_values(|v: crate::catalog::View| v.name@);
    let ghost needs = vs@.map_values(|v: crate::catalog::View| slices(v.requires@));
    let mut out: Vec<LoadStatement> = Vec::new();
    let mut i: usize = 0;
    assert(names_of(out@) =~= Seq::empty());
    while i < vs.len()
        invariant
            i <= vs@.len(),
            vs@.len() == view_names().len(),
            vnames == vs@.map_values(|v: crate::catalog::View| v.name@),
            needs == vs@.map_values(|v: crate::catalog::View| slices(v.requires@)),
            vnames == view_names(),
            needs == view_requires(),
            names_of(out@) == buildable(texts(tables@), i as nat),
            forall|j: int|
                0 <= j < out@.len() ==> view_sql_of((#[trigger] out@[j]).name@) == Some(
                    out@[j].sql@,
                ),
        decreases vs@.len() - i,
    {
        let v = &vs[i];
        assert(vnames[i as int] == v.name@);
        assert(needs[i as int] == slices(v.requires@));
        let ghost before = names_of(out@);
        if all_loaded(&v.requires, tables) {
            if let Some(sql) = view_sql(v.name) {
                out.push(LoadStatement { name: v.name.to_string(), sql: sql.to_string() });
                assert(names_of(out@) =~= before.push(v.name@));
            }
        }
        i = i + 1;
    }
    out
}

/// One failure does not abort the rest: what is loaded are exactly the relations
/// whose own statement succeeded.
pub proof fn law_one_failure_does_not_abort_the_rest(
    names: Seq<Seq<char>>,
    ok: Seq<bool>,
    x: Seq<char>,
)
    requires
        ok.len() == names.len(),
    ensures
        succeeded(names, ok).contains(x) <==> exists|i: int|
            0 <= i < names.len() && ok[i] && #[trigger] names[i] == x,
{
    lemma_succeeded(names, ok, x);
}

proof fn lemma_succeeded(names: Seq<Seq<char>>, ok: Seq<bool>, x: Seq<char>)
    requires
        names.len() <= ok.len(),
    ensures
        succeeded(names, ok).contains(x) <==> exists|i: int|
            0 <= i < names.len() && ok[i] && #[trigger] names[i] == x,
    decreases names.len(),
{
    if names.len() > 0 {
        let front = names.drop_last();
        let before = succeeded(front, ok);
        let all = succeeded(names, ok);
        let last = names.len() - 1;
        lemma_succeeded(front, ok, x);
        if before.contains(x) {
            let i = choose|i: int| 0 <= i < front.len() && ok[i] && #[trigger] front[i] == x;
            assert(names[i] == x);
            let k = choose|k: int| 0 <= k < before.len() && before[k] == x;
            assert(all[k] == x);
        }
        if all.contains(x) && !before.contains(x) {
            let k = choose|k: int| 0 <= k < all.len() && all[k] == x;
            if k < before.len() {
                assert(before[k] == x);
            }
            assert(names[last] == x);
        }
        if exists|i: int| 0 <= i < names.len() && ok[i] && #[trigger] names[i] == x {
            let i = choose|i: int| 0 <= i < names.len() && ok[i] && #[trigger] names[i] == x;
            if i < last {
                assert(front[i] == x);
            } else {
                assert(all[all.len() - 1] == x);
            }
        }
    }
}

/// A view is built only over loaded inputs: each view that is built is one of the
/// catalog, and the tables that it requires are all loaded.
pub proof fn law_built_views_have_their_inputs(tables: Seq<Seq<char>>, n: nat, i: int)
    requires
        n <= view_names().len(),
        0 <= i < buildable(tables, n).len(),
    ensures
        exists|k: int|
            0 <= k < n && buildable(tables, n)[i] == #[trigger] view_names()[k] && all_among(
                view_requires()[k],
                tables,
            ),
    decreases n,
{
    let before = buildable(tables, (n - 1) as nat);
    if i < before.len() {
        law_built_views_have_their_inputs(tables, (n - 1) as nat, i);
        let k = choose|k: int|
            0 <= k < n - 1 && before[i] == #[trigger] view_names()[k] && all_among(
                view_requires()[k],
                tables,
            );
        assert(buildable(tables, n)[i] == view_names()[k]);
    } else {
        assert(buildable(tables, n)[i] == view_names()[n - 1]);
    }
}

/// Where every dataset is loaded, every view is built.
pub proof fn law_a_full_load_builds_every_view()
    ensures
        buildable(dataset_names(), view_names().len()) == view_names(),
{
    reveal_with_fuel(buildable, 4);
    assert forall|i: int| 0 <= i < view_names().len() implies all_among(
        #[trigger] view_requires()[i],
        dataset_names(),
    ) by {
        assert forall|j: int| 0 <= j < view_requires()[i].len() implies dataset_names().contains(
            #[trigger] view_requires()[i][j],
        ) by {
            law_views_require_datasets(i, j);
        }
    }
    assert(view_names().len() == 3);
    law_every_view_has_a_statement(0);
    law_every_view_has_a_statement(1);
    law_every_view_has_a_statement(2);
    assert(all_among(view_requires()[0], dataset_names()));
    assert(all_among(view_requires()[1], dataset_names()));
    assert(all_among(view_requires()[2], dataset_names()));
    assert(buildable(dataset_names(), view_names().len()) =~= view_names());
}

/// Every view of the catalog has a statement, so a view is built exactly when
/// the tables that it requires are loaded.
pub proof fn law_every_view_has_a_statement(i: int)
    requires
        0 <= i < view_names().len(),
    ensures
        view_sql_of(view_names()[i]) is Some,
{
    assert(view_names()[0] == "latest"@);
    assert(view_names()[1] == "returns"@);
    assert(view_names()[2] == "broker_net"@);
}

// ---- settings of the serving instance ----

/// `n` limited to the range from `lo` to `hi`.
pub open spec fn clamp(n: int, lo: int, hi: int) -> int {
    if n < lo {
        lo
    } else if n > hi {
        hi
    } else {
        n
    }
}

/// The number that a variable's value writes, if it is set, is a number and is no
/// larger than `max`.
pub open spec fn number_in(var: Option<Seq<char>>, max: nat) -> Option<nat> {
    match var {
        Some(s) => number_within(s, max),
        None => None,
    }
}

/// The pool size for a value of `IDX_SERVING_CONNECTIONS`.
pub open spec fn connections_for(var: Option<Seq<char>>) -> int {
    match number_in(var, usize::MAX as nat) {
        Some(n) => clamp(n as int, 1, 64),
        None => 8,
    }
}

/// The query time limit for a value of `IDX_QUERY_TIMEOUT_SECS`.
pub open spec fn timeout_for(var: Option<Seq<char>>) -> nat {
    match number_in(var, u64::MAX as nat) {
        Some(n) => n,
        None => 15,
    }
}

/// The memory limit for a value of `IDX_MAX_MEMORY`.
pub open spec fn memory_for(var: Option<Seq<char>>) -> Seq<char> {
    match var {
        Some(s) => s,
        None => "2GB"@,
    }
}

/// The worker threads for a machine's parallelism.
pub open spec fn threads_for(parallelism: Option<usize>) -> int {
    match parallelism {
        Some(p) => clamp(p as int, 2, 16),
        None => 4,
    }
}

/// Serving pool size from the value of `IDX_SERVING_CONNECTIONS`: 8 if it is
/// not set or no number, else limited to 1 to 64.
pub fn serving_connections(var: Option<&str>) -> (r: usize)
    ensures
        r == connections_for(str_text(var)),
{
    match var {
        None => 8,
        Some(s) => match parse_unsigned(s, usize::MAX as u64) {
            None => 8,
            Some(n) => if n < 1 {
                1
            } else if n > 64 {
                64
            } else {
                n as usize
            },
        },
    }
}

/// Query time limit in seconds from the value of `IDX_QUERY_TIMEOUT_SECS`: 15
/// if it is not set or no number.
pub fn query_timeout_secs(var: Option<&str>) -> (r: u64)
    ensures
        r == timeout_for(str_text(var)),
{
    match var {
        None => 15,
        Some(s) => match parse_unsigned(s, u64::MAX) {
            None => 15,
            Some(n) => n,
        },
    }
}

/// Memory limit of the serving instance from the value of `IDX_MAX_MEMORY`.
pub fn max_memory(var: Option<String>) -> (r: String)
    ensures
        r@ == memory_for(opt_text(var)),
{
    match var {
        Some(s) => s,
        None => "2GB".to_string(),
    }
}

/// Worker threads of the serving instance: the machine's parallelism limited
/// to 2 to 16, so a query gets real CPU without oversubscribing tiny or huge
/// hosts; 4 where the parallelism is unknown.
pub fn serving_threads(parallelism: Option<usize>) -> (r: i64)
    ensures
        r == threads_for(parallelism),
{
    match parallelism {
        None => 4,
        Some(p) => if p < 2 {
            2
        } else if p > 16 {
            16
        } else {
            p as i64
        },
    }
}

/// The environment's values that the serving instance depends on, each absent if
/// it is not set or not known.
pub struct ServingEnv {
    /// `IDX_SERVING_CONNECTIONS`
    pub connections: Option<String>,
    /// `IDX_MAX_MEMORY`
    pub max_memory: Option<String>,
    /// The machine's parallelism.
    pub parallelism: Option<usize>,
}

/// How the serving database is opened. Read-only, external access off and the lock
/// hold for the whole instance, so every connection of the pool is equally
/// sandboxed.
pub struct ServingOptions {
    pub read_only: bool,
    pub external_access: bool,
    pub autoload_extension: bool,
    pub max_memory: String,
    pub threads: i64,
    /// How many connections share the instance.
    pub connections: usize,
    /// The last statement before queries run: no setting can change after it.
    pub lock_sql: &'static str,
}

/// Forbids any further change of settings, so external access can never be turned
/// back on.
pub const LOCK_SQL: &'static str = "SET lock_configuration = true;";

/// `o` is how the serving database is opened in an environment.
pub open spec fn opened_for(o: ServingOptions, env: ServingEnv) -> bool {
    &&& o.read_only
    &&& !o.external_access
    &&& !o.autoload_extension
    &&& o.lock_sql@ == LOCK_SQL@
    &&& o.max_memory@ == memory_for(opt_text(env.max_memory))
    &&& o.threads == threads_for(env.parallelism)
    &&& o.connections == connections_for(opt_text(env.connections))
}

/// How the serving database is opened, whatever the environment says: read-only,
/// without external access, and locked. The environment only decides how much
/// memory it may take and how many connections share it.
pub fn serving_options(env: ServingEnv) -> (r: ServingOptions)
    ensures
        opened_for(r, env),
        1 <= r.connections <= 64,
        2 <= r.threads <= 16,
{
    let connections: usize = match &env.connections {
        Some(s) => serving_connections(Some(s.as_str())),
        None => serving_connections(None),
    };
    ServingOptions {
        read_only: true,
        external_access: false,
        autoload_extension: false,
        max_memory: max_memory(env.max_memory),
        threads: serving_threads(env.parallelism),
        connections,
        lock_sql: LOCK_SQL,
    }
}

// ---- builds ----

/// Hands out the versions of the serving file. Version 0 is the boot build;
/// rebuilds count on from 1.
pub struct Builds {
    next: u64,
}

impl Builds {
    /// The version of the next build.
    pub closed spec fn next_version(&self) -> nat {
        self.next as nat
    }

    /// No build yet.
    pub fn new() -> (r: Self)
        ensures
            r.next_version() == 0,
    {
        Builds { next: 0 }
    }

    /// The version of a new build. The count starts over after the last number.
    pub fn begin(&mut self) -> (r: u64)
        ensures
            r == old(self).next_version(),
            final(self).next_version() == (if r < u64::MAX {
                r + 1
            } else {
                0
            }),
    {
        let version: u64 = self.next;
        if version < u64::MAX {
            self.next = version + 1;
        } else {
            self.next = 0;
        }
        version
    }
}

// ---- the database that is served ----

/// A built database, opened, with the names of its tables and views. What is opened
/// is whatever stands for the database.
pub struct Build<T> {
    pub database: T,
    pub tables: Vec<String>,
    pub views: Vec<String>,
}

/// Why a build cannot be served.
#[derive(Debug)]
pub enum BuildError {
    /// It failed, for the given reason.
    Failed(String),
    /// No dataset could be loaded.
    Empty(EngineError),
}

/// The database that queries are answered from. It always has a table.
pub struct Current<T> {
    build: Build<T>,
}

/// True if a build may be served: it has succeeded, and it has a table.
pub open spec fn servable<T>(built: Result<Build<T>, String>) -> bool {
    built is Ok && built->Ok_0.tables@.len() > 0
}

/// True if `e` tells why a build of the data at `base` may not be served.
pub open spec fn tells_why<T>(e: BuildError, built: Result<Build<T>, String>, base: Seq<char>) -> bool {
    match built {
        Err(reason) => e is Failed && e->Failed_0@ == reason@,
        Ok(_) => e is Empty && e->Empty_0@ == EngineErrorView::NoDatasets(base),
    }
}

fn check_build<T>(built: Result<Build<T>, String>, base: &str) -> (r: Result<Build<T>, BuildError>)
    ensures
        match r {
            Ok(b) => servable(built) && b == built->Ok_0,
            Err(e) => !servable(built) && tells_why(e, built, base@),
        },
{
    match built {
        Err(reason) => Err(BuildError::Failed(reason)),
        Ok(b) => match require_loaded(&b.tables, base) {
            Err(e) => Err(BuildError::Empty(e)),
            Ok(_) => Ok(b),
        },
    }
}

impl<T> Current<T> {
    /// The build that is served.
    pub closed spec fn view(&self) -> Build<T> {
        self.build
    }

    /// What is served has a table.
    #[verifier::type_invariant]
    spec fn wf(&self) -> bool {
        self.build.tables@.len() > 0
    }

    /// Begins to serve the boot build; there is nothing to serve if it failed or is
    /// empty.
    pub fn start(built: Result<Build<T>, String>, base: &str) -> (r: Result<Self, BuildError>)
        ensures
            match r {
                Ok(c) => servable(built) && c@ == built->Ok_0,
                Err(e) => !servable(built) && tells_why(e, built, base@),
            },
    {
        match check_build(built, base) {
            Ok(build) => Ok(Current { build }),
            Err(e) => Err(e),
        }
    }

    /// Swaps a rebuild in and gives the old build back, to be removed. A rebuild that
    /// failed or is empty changes nothing.
    pub fn rebuild(&mut self, built: Result<Build<T>, String>, base: &str) -> (r: Result<
        Build<T>,
        BuildError,
    >)
        ensures
            final(self)@ == served(old(self)@, built),
            match r {
                Ok(retired) => servable(built) && retired == old(self)@,
                Err(e) => !servable(built) && tells_why(e, built, base@),
            },
    {
        match check_build(built, base) {
            Err(e) => Err(e),
            Ok(build) => {
                let mut next = Current { build };
                std::mem::swap(self, &mut next);
                Ok(next.build)
            },
        }
    }

    /// The database to answer a query from.
    pub fn database(&self) -> (r: &T)
        ensures
            *r == self@.database,
    {
        &self.build.database
    }

    /// Names of the loaded base tables.
    pub fn tables(&self) -> (r: &Vec<String>)
        ensures
            *r == self@.tables,
            r@.len() > 0,
    {
        proof {
            use_type_invariant(self);
        }
        &self.build.tables
    }

    /// Names of the created analytical views.
    pub fn views(&self) -> (r: &Vec<String>)
        ensures
            *r == self@.views,
    {
        &self.build.views
    }
}

/// What is served once a rebuild has ended.
pub open spec fn served<T>(old_build: Build<T>, built: Result<Build<T>, String>) -> Build<T> {
    if servable(built) {
        built->Ok_0
    } else {
        old_build
    }
}

/// A rebuild never leaves the server without data: where it failed or loaded nothing,
/// the tables, the views and the database are those of before; otherwise all three
/// are those of the new build. Either way there is a table.
pub proof fn law_a_failed_rebuild_keeps_the_data<T>(
    old_build: Build<T>,
    built: Result<Build<T>, String>,
)
    requires
        old_build.tables@.len() > 0,
    ensures
        built is Err ==> served(old_build, built) == old_build,
        built is Ok && built->Ok_0.tables@.len() == 0 ==> served(old_build, built) == old_build,
        served(old_build, built) == old_build || Ok::<_, String>(served(old_build, built)) == built,
        served(old_build, built).tables@.len() > 0,
{
}

// ---- serving files ----

/// The directory of one engine instance: its process and a running number.
pub open spec fn instance_name(pid: nat, instance: nat) -> Seq<char> {
    decimal(pid) + "-"@ + decimal(instance)
}

/// The file of one build of the serving database.
pub open spec fn file_name(version: nat) -> Seq<char> {
    "serving-"@ + decimal(version) + ".duckdb"@
}

/// The number that a text writes, if it writes one no larger than `max`.
pub open spec fn number_within(s: Seq<char>, max: nat) -> Option<nat> {
    match unsigned_value(s) {
        Some(n) => if n <= max {
            Some(n)
        } else {
            None
        },
        None => None,
    }
}

/// The process that an instance directory belongs to: the number before the first
/// dash, where a number follows the dash. Any other name is no instance directory.
pub open spec fn owner_of(name: Seq<char>) -> Option<nat> {
    match first_index(name, '-') {
        None => None,
        Some(i) => if number_within(name.skip(i + 1), u64::MAX as nat) is None {
            None
        } else {
            number_within(name.take(i), u32::MAX as nat)
        },
    }
}

/// True if a file name is that of a serving file.
pub open spec fn serving_file(name: Seq<char>) -> bool {
    starts(name, "serving-"@) && ends(name, ".duckdb"@)
}

/// The directory name of one engine instance.
pub fn instance_dir_name(pid: u32, instance: u64) -> (r: String)
    ensures
        r@ == instance_name(pid as nat, instance as nat),
{
    let mut s = String::new();
    push_decimal(&mut s, pid as u64);
    s.append("-");
    push_decimal(&mut s, instance);
    assert(s@ =~= instance_name(pid as nat, instance as nat));
    s
}

/// The file name of one build of the serving database.
pub fn serving_file_name(version: u64) -> (r: String)
    ensures
        r@ == file_name(version as nat),
{
    let mut s = "serving-".to_string();
    push_decimal(&mut s, version);
    s.append(".duckdb");
    s
}

/// The process that an instance directory belongs to, if it is one.
pub fn instance_pid(name: &str) -> (r: Option<u32>)
    ensures
        match r {
            Some(p) => owner_of(name@) == Some(p as nat),
            None => owner_of(name@) is None,
        },
{
    let dash: usize = match find_char(name, '-') {
        Some(i) => i,
        None => {
            return None;
        },
    };
    let n: usize = name.unicode_len();
    let head = name.substring_char(0, dash);
    let tail = name.substring_char(dash + 1, n);
    proof {
        assert(head@ =~= name@.take(dash as int));
        assert(tail@ =~= name@.skip(dash + 1));
    }
    match (parse_unsigned(tail, u64::MAX), parse_unsigned(head, u32::MAX as u64)) {
        (Some(_), Some(p)) => Some(p as u32),
        _ => None,
    }
}

/// True if the directory of the process `pid` was left behind.
pub open spec fn left_behind(pid: u32, me: u32, alive: bool) -> bool {
    pid != me && !alive
}

/// True if an instance directory was left by a process that has died: it
/// belongs to another process, and that one is not alive.
pub fn is_dead_instance(pid: u32, me: u32, alive: bool) -> (r: bool)
    ensures
        r == left_behind(pid, me, alive),
{
    pid != me && !alive
}

/// True if `name` is that of a serving file.
pub fn is_serving_file(name: &str) -> (r: bool)
    ensures
        r == serving_file(name@),
{
    starts_with(name, "serving-") && ends_with(name, ".duckdb")
}

/// The directory of an instance names its process: what is created at start is
/// found again when dead instances are cleared.
pub proof fn law_instance_directory_names_its_process(pid: u32, instance: u64)
    ensures
        owner_of(instance_name(pid as nat, instance as nat)) == Some(pid as nat),
{
    reveal_strlit("-");
    let d = decimal(pid as nat);
    let name = instance_name(pid as nat, instance as nat);
    lemma_decimal_value(pid as nat);
    lemma_decimal_value(instance as nat);
    assert forall|i: int| 0 <= i < d.len() implies d[i] != '-' by {
        assert(is_digit(d[i]));
    }
    lemma_first_index_at(name, '-', d.len() as int);
    assert(name.take(d.len() as int) =~= d);
    assert(name.skip(d.len() as int + 1) =~= decimal(instance as nat));
}

/// A directory that is not named by two numbers and a dash between them is no
/// instance's, so it is never cleared.
pub proof fn law_other_directories_have_no_owner(name: Seq<char>)
    requires
        owner_of(name) is Some,
    ensures
        exists|i: int|
            0 <= i < name.len() && name[i] == '-' && unsigned_value(#[trigger] name.take(i)) is Some
                && unsigned_value(name.skip(i + 1)) is Some,
{
    lemma_first_index(name, '-');
    let i = first_index(name, '-')->Some_0;
    assert(unsigned_value(name.take(i)) is Some);
}

/// Instances never share a directory: those of different processes, or with
/// different running numbers, have different names.
pub proof fn law_instances_never_share_a_directory(p: nat, i: nat, q: nat, j: nat)
    requires
        instance_name(p, i) == instance_name(q, j),
    ensures
        p == q,
        i == j,
{
    reveal_strlit("-");
    lemma_decimal_value(p);
    lemma_decimal_value(q);
    lemma_decimal_value(i);
    lemma_decimal_value(j);
    let a = instance_name(p, i);
    let b = instance_name(q, j);
    let m = decimal(p).len() as int;
    let n = decimal(q).len() as int;
    assert(a[m] == '-' && b[n] == '-');
    assert(m == n) by {
        if m < n {
            assert(b[m] == decimal(q)[m]);
            assert(is_digit(decimal(q)[m]));
        } else if n < m {
            assert(a[n] == decimal(p)[n]);
            assert(is_digit(decimal(p)[n]));
        }
    }
    assert(a.take(m) =~= decimal(p) && b.take(m) =~= decimal(q));
    assert(a.skip(m + 1) =~= decimal(i) && b.skip(m + 1) =~= decimal(j));
}

/// Every file that a build creates is recognised when stale files are removed.
pub proof fn law_built_files_are_serving_files(version: nat)
    ensures
        serving_file(file_name(version)),
{
    let n = file_name(version);
    assert(n.subrange(0, "serving-"@.len() as int) =~= "serving-"@);
    assert(n.subrange(n.len() - ".duckdb"@.len(), n.len() as int) =~= ".duckdb"@);
}

/// Builds with different versions never share a file, so a rebuild cannot
/// delete the file that an open connection reads.
pub proof fn law_builds_never_share_a_file(a: nat, b: nat)
    requires
        a != b,
    ensures
        file_name(a) != file_name(b),
{
    if file_name(a) == file_name(b) {
        let p = "serving-"@.len() as int;
        let q = ".duckdb"@.len() as int;
        let n = file_name(a);
        let m = file_name(b);
        assert(n.subrange(p, n.len() - q) =~= decimal(a));
        assert(m.subrange(p, m.len() - q) =~= decimal(b));
        lemma_decimal_value(a);
        lemma_decimal_value(b);
    }
}

// ---- laws of the build ----

proof fn lemma_load_sql(
    base: Seq<char>,
    name: Seq<char>,
    kind: Kind,
    head: Seq<char>,
    tail: Seq<char>,
)
    requires
        head == "CREATE OR REPLACE TABLE \""@ + name + "\" AS SELECT * FROM read_parquet('"@,
        kind == Kind::Snapshot ==> tail == "/"@ + name + "/latest.parquet')"@,
        kind == Kind::TimeSeries ==> tail == "/"@ + name
            + "/date=*/*.parquet', hive_partitioning=true)"@,
    ensures
        load_sql(base, name, kind) == head + base + tail,
{
    reveal_strlit("/latest.parquet");
    reveal_strlit("/latest.parquet')");
    reveal_strlit("/date=*/*.parquet");
    reveal_strlit("/date=*/*.parquet', hive_partitioning=true)");
    reveal_strlit(", hive_partitioning=true");
    reveal_strlit("'");
    reveal_strlit(")");
    assert("/latest.parquet"@ + "'"@ + ")"@ =~= "/latest.parquet')"@);
    assert("/date=*/*.parquet"@ + "'"@ + ", hive_partitioning=true"@ + ")"@
        =~= "/date=*/*.parquet', hive_partitioning=true)"@);
    assert(load_sql(base, name, kind) =~= head + base + tail);
}

/// Every table is loaded from its own place under the data root: the four snapshots each
/// from one file, the eight time series from the files of their days, whose dates become
/// a column.
pub proof fn law_each_table_is_loaded_from_its_own_place(base: Seq<char>)
    ensures
        entry(dataset_names(), load_sqls(base), "prices"@) == Some(
            "CREATE OR REPLACE TABLE \"prices\" AS SELECT * FROM read_parquet('"@ + base
                + "/prices/date=*/*.parquet', hive_partitioning=true)"@,
        ),
        entry(dataset_names(), load_sqls(base), "eod_summary"@) == Some(
            "CREATE OR REPLACE TABLE \"eod_summary\" AS SELECT * FROM read_parquet('"@ + base
                + "/eod_summary/date=*/*.parquet', hive_partitioning=true)"@,
        ),
        entry(dataset_names(), load_sqls(base), "indicators"@) == Some(
            "CREATE OR REPLACE TABLE \"indicators\" AS SELECT * FROM read_parquet('"@ + base
                + "/indicators/date=*/*.parquet', hive_partitioning=true)"@,
        ),
        entry(dataset_names(), load_sqls(base), "fundamentals"@) == Some(
            "CREATE OR REPLACE TABLE \"fundamentals\" AS SELECT * FROM read_parquet('"@ + base
                + "/fundamentals/date=*/*.parquet', hive_partitioning=true)"@,
        ),
        entry(dataset_names(), load_sqls(base), "broker_activity"@) == Some(
            "CREATE OR REPLACE TABLE \"broker_activity\" AS SELECT * FROM read_parquet('"@ + base
                + "/broker_activity/date=*/*.parquet', hive_partitioning=true)"@,
        ),
        entry(dataset_names(), load_sqls(base), "broker_distribution"@) == Some(
            "CREATE OR REPLACE TABLE \"broker_distribution\" AS SELECT * FROM read_parquet('"@ + base
                + "/broker_distribution/date=*/*.parquet', hive_partitioning=true)"@,
        ),
        entry(dataset_names(), load_sqls(base), "broker_rankings"@) == Some(
            "CREATE OR REPLACE TABLE \"broker_rankings\" AS SELECT * FROM read_parquet('"@ + base
                + "/broker_rankings/date=*/*.parquet', hive_partitioning=true)"@,
        ),
        entry(dataset_names(), load_sqls(base), "announcements"@) == Some(
            "CREATE OR REPLACE TABLE \"announcements\" AS SELECT * FROM read_parquet('"@ + base
                + "/announcements/date=*/*.parquet', hive_partitioning=true)"@,
        ),
        entry(dataset_names(), load_sqls(base), "companies"@) == Some(
            "CREATE OR REPLACE TABLE \"companies\" AS SELECT * FROM read_parquet('"@ + base
                + "/companies/latest.parquet')"@,
        ),
        entry(dataset_names(), load_sqls(base), "summary"@) == Some(
            "CREATE OR REPLACE TABLE \"summary\" AS SELECT * FROM read_parquet('"@ + base
                + "/summary/latest.parquet')"@,
        ),
        entry(dataset_names(), load_sqls(base), "analyst"@) == Some(
            "CREATE OR REPLACE TABLE \"analyst\" AS SELECT * FROM read_parquet('"@ + base
                + "/analyst/latest.parquet')"@,
        ),
        entry(dataset_names(), load_sqls(base), "ownership"@) == Some(
            "CREATE OR REPLACE TABLE \"ownership\" AS SELECT * FROM read_parquet('"@ + base
                + "/ownership/latest.parquet')"@,
        ),
{
    lemma_place_of_prices(base);
    lemma_place_of_eod_summary(base);
    lemma_place_of_indicators(base);
    lemma_place_of_fundamentals(base);
    lemma_place_of_broker_activity(base);
    lemma_place_of_broker_distribution(base);
    lemma_place_of_broker_rankings(base);
    lemma_place_of_announcements(base);
    lemma_place_of_companies(base);
    lemma_place_of_summary(base);
    lemma_place_of_analyst(base);
    lemma_place_of_ownership(base);
}

proof fn lemma_loaded(base: Seq<char>, k: int)
    requires
        0 <= k < dataset_names().len(),
    ensures
        entry(dataset_names(), load_sqls(base), dataset_names()[k]) == Some(
            load_sql(base, dataset_names()[k], dataset_kinds()[k]),
        ),
{
    law_names_are_unique();
    let d = dataset_names();
    let c = catalog_names();
    assert forall|i: int, j: int| 0 <= i < d.len() && 0 <= j < d.len() && i != j implies d[i]
        != d[j] by {
        assert(c[i] != c[j]);
    }
    lemma_entry_at(d, load_sqls(base), k);
}

proof fn lemma_place_of_prices(base: Seq<char>)
    ensures
        entry(dataset_names(), load_sqls(base), "prices"@) == Some(
            "CREATE OR REPLACE TABLE \"prices\" AS SELECT * FROM read_parquet('"@ + base
                + "/prices/date=*/*.parquet', hive_partitioning=true)"@,
        ),
{
    reveal_strlit("/");
    reveal_strlit("CREATE OR REPLACE TABLE \"");
    reveal_strlit("\" AS SELECT * FROM read_parquet('");
    reveal_strlit("prices");
    reveal_strlit("/date=*/*.parquet', hive_partitioning=true)");
    reveal_strlit("CREATE OR REPLACE TABLE \"prices\" AS SELECT * FROM read_parquet('");
    reveal_strlit("/prices/date=*/*.parquet', hive_partitioning=true)");
    let head = "CREATE OR REPLACE TABLE \"prices\" AS SELECT * FROM read_parquet('"@;
    let tail = "/prices/date=*/*.parquet', hive_partitioning=true)"@;
    assert(head =~= "CREATE OR REPLACE TABLE \""@ + "prices"@
        + "\" AS SELECT * FROM read_parquet('"@);
    assert(tail =~= "/"@ + "prices"@ + "/date=*/*.parquet', hive_partitioning=true)"@);
    lemma_load_sql(base, "prices"@, Kind::TimeSeries, head, tail);
    lemma_loaded(base, 0);
}

proof fn lemma_place_of_eod_summary(base: Seq<char>)
    ensures
        entry(dataset_names(), load_sqls(base), "eod_summary"@) == Some(
            "CREATE OR REPLACE TABLE \"eod_summary\" AS SELECT * FROM read_parquet('"@ + base
                + "/eod_summary/date=*/*.parquet', hive_partitioning=true)"@,
        ),
{
    reveal_strlit("/");
    reveal_strlit("CREATE OR REPLACE TABLE \"");
    reveal_strlit("\" AS SELECT * FROM read_parquet('");
    reveal_strlit("eod_summary");
    reveal_strlit("/date=*/*.parquet', hive_partitioning=true)");
    reveal_strlit("CREATE OR REPLACE TABLE \"eod_summary\" AS SELECT * FROM read_parquet('");
    reveal_strlit("/eod_summary/date=*/*.parquet', hive_partitioning=true)");
    let head = "CREATE OR REPLACE TABLE \"eod_summary\" AS SELECT * FROM read_parquet('"@;
    let tail = "/eod_summary/date=*/*.parquet', hive_partitioning=true)"@;
    assert(head =~= "CREATE OR REPLACE TABLE \""@ + "eod_summary"@
        + "\" AS SELECT * FROM read_parquet('"@);
    assert(tail =~= "/"@ + "eod_summary"@ + "/date=*/*.parquet', hive_partitioning=true)"@);
    lemma_load_sql(base, "eod_summary"@, Kind::TimeSeries, head, tail);
    lemma_loaded(base, 1);
}

proof fn lemma_place_of_indicators(base: Seq<char>)
    ensures
        entry(dataset_names(), load_sqls(base), "indicators"@) == Some(
            "CREATE OR REPLACE TABLE \"indicators\" AS SELECT * FROM read_parquet('"@ + base
                + "/indicators/date=*/*.parquet', hive_partitioning=true)"@,
        ),
{
    reveal_strlit("/");
    reveal_strlit("CREATE OR REPLACE TABLE \"");
    reveal_strlit("\" AS SELECT * FROM read_parquet('");
    reveal_strlit("indicators");
    reveal_strlit("/date=*/*.parquet', hive_partitioning=true)");
    reveal_strlit("CREATE OR REPLACE TABLE \"indicators\" AS SELECT * FROM read_parquet('");
    reveal_strlit("/indicators/date=*/*.parquet', hive_partitioning=true)");
    let head = "CREATE OR REPLACE TABLE \"indicators\" AS SELECT * FROM read_parquet('"@;
    let tail = "/indicators/date=*/*.parquet', hive_partitioning=true)"@;
    assert(head =~= "CREATE OR REPLACE TABLE \""@ + "indicators"@
        + "\" AS SELECT * FROM read_parquet('"@);
    assert(tail =~= "/"@ + "indicators"@ + "/date=*/*.parquet', hive_partitioning=true)"@);
    lemma_load_sql(base, "indicators"@, Kind::TimeSeries, head, tail);
    lemma_loaded(base, 2);
}

proof fn lemma_place_of_fundamentals(base: Seq<char>)
    ensures
        entry(dataset_names(), load_sqls(base), "fundamentals"@) == Some(
            "CREATE OR REPLACE TABLE \"fundamentals\" AS SELECT * FROM read_parquet('"@ + base
                + "/fundamentals/date=*/*.parquet', hive_partitioning=true)"@,
        ),
{
    reveal_strlit("/");
    reveal_strlit("CREATE OR REPLACE TABLE \"");
    reveal_strlit("\" AS SELECT * FROM read_parquet('");
    reveal_strlit("fundamentals");
    reveal_strlit("/date=*/*.parquet', hive_partitioning=true)");
    reveal_strlit("CREATE OR REPLACE TABLE \"fundamentals\" AS SELECT * FROM read_parquet('");
    reveal_strlit("/fundamentals/date=*/*.parquet', hive_partitioning=true)");
    let head = "CREATE OR REPLACE TABLE \"fundamentals\" AS SELECT * FROM read_parquet('"@;
    let tail = "/fundamentals/date=*/*.parquet', hive_partitioning=true)"@;
    assert(head =~= "CREATE OR REPLACE TABLE \""@ + "fundamentals"@
        + "\" AS SELECT * FROM read_parquet('"@);
    assert(tail =~= "/"@ + "fundamentals"@ + "/date=*/*.parquet', hive_partitioning=true)"@);
    lemma_load_sql(base, "fundamentals"@, Kind::TimeSeries, head, tail);
    lemma_loaded(base, 3);
}

proof fn lemma_place_of_broker_activity(base: Seq<char>)
    ensures
        entry(dataset_names(), load_sqls(base), "broker_activity"@) == Some(
            "CREATE OR REPLACE TABLE \"broker_activity\" AS SELECT * FROM read_parquet('"@ + base
                + "/broker_activity/date=*/*.parquet', hive_partitioning=true)"@,
        ),
{
    reveal_strlit("/");
    reveal_strlit("CREATE OR REPLACE TABLE \"");
    reveal_strlit("\" AS SELECT * FROM read_parquet('");
    reveal_strlit("broker_activity");
    reveal_strlit("/date=*/*.parquet', hive_partitioning=true)");
    reveal_strlit("CREATE OR REPLACE TABLE \"broker_activity\" AS SELECT * FROM read_parquet('");
    reveal_strlit("/broker_activity/date=*/*.parquet', hive_partitioning=true)");
    let head = "CREATE OR REPLACE TABLE \"broker_activity\" AS SELECT * FROM read_parquet('"@;
    let tail = "/broker_activity/date=*/*.parquet', hive_partitioning=true)"@;
    assert(head =~= "CREATE OR REPLACE TABLE \""@ + "broker_activity"@
        + "\" AS SELECT * FROM read_parquet('"@);
    assert(tail =~= "/"@ + "broker_activity"@ + "/date=*/*.parquet', hive_partitioning=true)"@);
    lemma_load_sql(base, "broker_activity"@, Kind::TimeSeries, head, tail);
    lemma_loaded(base, 4);
}

proof fn lemma_place_of_broker_distribution(base: Seq<char>)
    ensures
        entry(dataset_names(), load_sqls(base), "broker_distribution"@) == Some(
            "CREATE OR REPLACE TABLE \"broker_distribution\" AS SELECT * FROM read_parquet('"@ + base
                + "/broker_distribution/date=*/*.parquet', hive_partitioning=true)"@,
        ),
{
    reveal_strlit("/");
    reveal_strlit("CREATE OR REPLACE TABLE \"");
    reveal_strlit("\" AS SELECT * FROM read_parquet('");
    reveal_strlit("broker_distribution");
    reveal_strlit("/date=*/*.parquet', hive_partitioning=true)");
    reveal_strlit("CREATE OR REPLACE TABLE \"broker_distribution\" AS SELECT * FROM read_parquet('");
    reveal_strlit("/broker_distribution/date=*/*.parquet', hive_partitioning=true)");
    let head = "CREATE OR REPLACE TABLE \"broker_distribution\" AS SELECT * FROM read_parquet('"@;
    let tail = "/broker_distribution/date=*/*.parquet', hive_partitioning=true)"@;
    assert(head =~= "CREATE OR REPLACE TABLE \""@ + "broker_distribution"@
        + "\" AS SELECT * FROM read_parquet('"@);
    assert(tail =~= "/"@ + "broker_distribution"@ + "/date=*/*.parquet', hive_partitioning=true)"@);
    lemma_load_sql(base, "broker_distribution"@, Kind::TimeSeries, head, tail);
    lemma_loaded(base, 5);
}

proof fn lemma_place_of_broker_rankings(base: Seq<char>)
    ensures
        entry(dataset_names(), load_sqls(base), "broker_rankings"@) == Some(
            "CREATE OR REPLACE TABLE \"broker_rankings\" AS SELECT * FROM read_parquet('"@ + base
                + "/broker_rankings/date=*/*.parquet', hive_partitioning=true)"@,
        ),
{
    reveal_strlit("/");
    reveal_strlit("CREATE OR REPLACE TABLE \"");
    reveal_strlit("\" AS SELECT * FROM read_parquet('");
    reveal_strlit("broker_rankings");
    reveal_strlit("/date=*/*.parquet', hive_partitioning=true)");
    reveal_strlit("CREATE OR REPLACE TABLE \"broker_rankings\" AS SELECT * FROM read_parquet('");
    reveal_strlit("/broker_rankings/date=*/*.parquet', hive_partitioning=true)");
    let head = "CREATE OR REPLACE TABLE \"broker_rankings\" AS SELECT * FROM read_parquet('"@;
    let tail = "/broker_rankings/date=*/*.parquet', hive_partitioning=true)"@;
    assert(head =~= "CREATE OR REPLACE TABLE \""@ + "broker_rankings"@
        + "\" AS SELECT * FROM read_parquet('"@);
    assert(tail =~= "/"@ + "broker_rankings"@ + "/date=*/*.parquet', hive_partitioning=true)"@);
    lemma_load_sql(base, "broker_rankings"@, Kind::TimeSeries, head, tail);
    lemma_loaded(base, 6);
}

proof fn lemma_place_of_announcements(base: Seq<char>)
    ensures
        entry(dataset_names(), load_sqls(base), "announcements"@) == Some(
            "CREATE OR REPLACE TABLE \"announcements\" AS SELECT * FROM read_parquet('"@ + base
                + "/announcements/date=*/*.parquet', hive_partitioning=true)"@,
        ),
{
    reveal_strlit("/");
    reveal_strlit("CREATE OR REPLACE TABLE \"");
    reveal_strlit("\" AS SELECT * FROM read_parquet('");
    reveal_strlit("announcements");
    reveal_strlit("/date=*/*.parquet', hive_partitioning=true)");
    reveal_strlit("CREATE OR REPLACE TABLE \"announcements\" AS SELECT * FROM read_parquet('");
    reveal_strlit("/announcements/date=*/*.parquet', hive_partitioning=true)");
    let head = "CREATE OR REPLACE TABLE \"announcements\" AS SELECT * FROM read_parquet('"@;
    let tail = "/announcements/date=*/*.parquet', hive_partitioning=true)"@;
    assert(head =~= "CREATE OR REPLACE TABLE \""@ + "announcements"@
        + "\" AS SELECT * FROM read_parquet('"@);
    assert(tail =~= "/"@ + "announcements"@ + "/date=*/*.parquet', hive_partitioning=true)"@);
    lemma_load_sql(base, "announcements"@, Kind::TimeSeries, head, tail);
    lemma_loaded(base, 7);
}

proof fn lemma_place_of_companies(base: Seq<char>)
    ensures
        entry(dataset_names(), load_sqls(base), "companies"@) == Some(
            "CREATE OR REPLACE TABLE \"companies\" AS SELECT * FROM read_parquet('"@ + base
                + "/companies/latest.parquet')"@,
        ),
{
    reveal_strlit("/");
    reveal_strlit("CREATE OR REPLACE TABLE \"");
    reveal_strlit("\" AS SELECT * FROM read_parquet('");
    reveal_strlit("companies");
    reveal_strlit("/latest.parquet')");
    reveal_strlit("CREATE OR REPLACE TABLE \"companies\" AS SELECT * FROM read_parquet('");
    reveal_strlit("/companies/latest.parquet')");
    let head = "CREATE OR REPLACE TABLE \"companies\" AS SELECT * FROM read_parquet('"@;
    let tail = "/companies/latest.parquet')"@;
    assert(head =~= "CREATE OR REPLACE TABLE \""@ + "companies"@
        + "\" AS SELECT * FROM read_parquet('"@);
    assert(tail =~= "/"@ + "companies"@ + "/latest.parquet')"@);
    lemma_load_sql(base, "companies"@, Kind::Snapshot, head, tail);
    lemma_loaded(base, 8);
}

proof fn lemma_place_of_summary(base: Seq<char>)
    ensures
        entry(dataset_names(), load_sqls(base), "summary"@) == Some(
            "CREATE OR REPLACE TABLE \"summary\" AS SELECT * FROM read_parquet('"@ + base
                + "/summary/latest.parquet')"@,
        ),
{
    reveal_strlit("/");
    reveal_strlit("CREATE OR REPLACE TABLE \"");
    reveal_strlit("\" AS SELECT * FROM read_parquet('");
    reveal_strlit("summary");
    reveal_strlit("/latest.parquet')");
    reveal_strlit("CREATE OR REPLACE TABLE \"summary\" AS SELECT * FROM read_parquet('");
    reveal_strlit("/summary/latest.parquet')");
    let head = "CREATE OR REPLACE TABLE \"summary\" AS SELECT * FROM read_parquet('"@;
    let tail = "/summary/latest.parquet')"@;
    assert(head =~= "CREATE OR REPLACE TABLE \""@ + "summary"@
        + "\" AS SELECT * FROM read_parquet('"@);
    assert(tail =~= "/"@ + "summary"@ + "/latest.parquet')"@);
    lemma_load_sql(base, "summary"@, Kind::Snapshot, head, tail);
    lemma_loaded(base, 9);
}

proof fn lemma_place_of_analyst(base: Seq<char>)
    ensures
        entry(dataset_names(), load_sqls(base), "analyst"@) == Some(
            "CREATE OR REPLACE TABLE \"analyst\" AS SELECT * FROM read_parquet('"@ + base
                + "/analyst/latest.parquet')"@,
        ),
{
    reveal_strlit("/");
    reveal_strlit("CREATE OR REPLACE TABLE \"");
    reveal_strlit("\" AS SELECT * FROM read_parquet('");
    reveal_strlit("analyst");
    reveal_strlit("/latest.parquet')");
    reveal_strlit("CREATE OR REPLACE TABLE \"analyst\" AS SELECT * FROM read_parquet('");
    reveal_strlit("/analyst/latest.parquet')");
    let head = "CREATE OR REPLACE TABLE \"analyst\" AS SELECT * FROM read_parquet('"@;
    let tail = "/analyst/latest.parquet')"@;
    assert(head =~= "CREATE OR REPLACE TABLE \""@ + "analyst"@
        + "\" AS SELECT * FROM read_parquet('"@);
    assert(tail =~= "/"@ + "analyst"@ + "/latest.parquet')"@);
    lemma_load_sql(base, "analyst"@, Kind::Snapshot, head, tail);
    lemma_loaded(base, 10);
}

proof fn lemma_place_of_ownership(base: Seq<char>)
    ensures
        entry(dataset_names(), load_sqls(base), "ownership"@) == Some(
            "CREATE OR REPLACE TABLE \"ownership\" AS SELECT * FROM read_parquet('"@ + base
                + "/ownership/latest.parquet')"@,
        ),
{
    reveal_strlit("/");
    reveal_strlit("CREATE OR REPLACE TABLE \"");
    reveal_strlit("\" AS SELECT * FROM read_parquet('");
    reveal_strlit("ownership");
    reveal_strlit("/latest.parquet')");
    reveal_strlit("CREATE OR REPLACE TABLE \"ownership\" AS SELECT * FROM read_parquet('");
    reveal_strlit("/ownership/latest.parquet')");
    let head = "CREATE OR REPLACE TABLE \"ownership\" AS SELECT * FROM read_parquet('"@;
    let tail = "/ownership/latest.parquet')"@;
    assert(head =~= "CREATE OR REPLACE TABLE \""@ + "ownership"@
        + "\" AS SELECT * FROM read_parquet('"@);
    assert(tail =~= "/"@ + "ownership"@ + "/latest.parquet')"@);
    lemma_load_sql(base, "ownership"@, Kind::Snapshot, head, tail);
    lemma_loaded(base, 11);
}

/// Each view is built by its own statement: the snapshot takes the newest price,
/// indicators and fundamentals of every company, the returns compare the last close with
/// the last one at or before each horizon, and the net flow is what was bought less what
/// was sold. No other view is known.
pub proof fn law_each_view_is_built_by_its_own_statement(name: Seq<char>)
    ensures
        view_sql_of("latest"@) == Some(
            "CREATE TABLE latest AS
WITH p AS (
  SELECT ticker, close, volume, date AS price_date
  FROM eod_summary QUALIFY row_number() OVER (PARTITION BY ticker ORDER BY date DESC) = 1
),
i AS (
  SELECT ticker, rsi_14, sma_50, sma_200
  FROM indicators QUALIFY row_number() OVER (PARTITION BY ticker ORDER BY date DESC) = 1
),
f AS (
  SELECT ticker, market_cap, enterprise_value, shares_outstanding, free_float_pct
  FROM fundamentals QUALIFY row_number() OVER (PARTITION BY ticker ORDER BY date DESC) = 1
)
SELECT
  c.ticker, c.company_name, c.sector, c.sub_sector,
  p.close, p.volume, p.price_date,
  f.market_cap, f.enterprise_value, f.shares_outstanding, f.free_float_pct,
  s.trailing_pe, s.forward_pe, s.price_to_book, s.dividend_yield, s.beta,
  s.return_on_equity, s.profit_margins,
  i.rsi_14, i.sma_50, i.sma_200
FROM companies c
LEFT JOIN p ON p.ticker = c.ticker
LEFT JOIN f ON f.ticker = c.ticker
LEFT JOIN summary s ON s.ticker = c.ticker
LEFT JOIN i ON i.ticker = c.ticker
ORDER BY c.ticker;"@,
        ),
        view_sql_of("returns"@) == Some(
            "CREATE TABLE returns AS
WITH lc AS (
  SELECT ticker, close, date AS as_of
  FROM eod_summary QUALIFY row_number() OVER (PARTITION BY ticker ORDER BY date DESC) = 1
)
SELECT lc.ticker, lc.as_of, lc.close,
  100.0 * (lc.close / NULLIF(w1w.close, 0) - 1) AS ret_1w,
  100.0 * (lc.close / NULLIF(w1m.close, 0) - 1) AS ret_1m,
  100.0 * (lc.close / NULLIF(w3m.close, 0) - 1) AS ret_3m,
  100.0 * (lc.close / NULLIF(w6m.close, 0) - 1) AS ret_6m,
  100.0 * (lc.close / NULLIF(wyt.close, 0) - 1) AS ret_ytd,
  100.0 * (lc.close / NULLIF(w1y.close, 0) - 1) AS ret_1y,
  100.0 * (lc.close / NULLIF(w3y.close, 0) - 1) AS ret_3y,
  100.0 * (power(lc.close / NULLIF(w3y.close, 0), 1.0 / 3.0) - 1) AS cagr_3y
FROM lc
ASOF LEFT JOIN eod_summary w1w ON w1w.ticker = lc.ticker AND w1w.date <= lc.as_of - INTERVAL '7 days'
ASOF LEFT JOIN eod_summary w1m ON w1m.ticker = lc.ticker AND w1m.date <= lc.as_of - INTERVAL '1 month'
ASOF LEFT JOIN eod_summary w3m ON w3m.ticker = lc.ticker AND w3m.date <= lc.as_of - INTERVAL '3 months'
ASOF LEFT JOIN eod_summary w6m ON w6m.ticker = lc.ticker AND w6m.date <= lc.as_of - INTERVAL '6 months'
ASOF LEFT JOIN eod_summary wyt ON wyt.ticker = lc.ticker AND wyt.date <  date_trunc('year', lc.as_of)
ASOF LEFT JOIN eod_summary w1y ON w1y.ticker = lc.ticker AND w1y.date <= lc.as_of - INTERVAL '1 year'
ASOF LEFT JOIN eod_summary w3y ON w3y.ticker = lc.ticker AND w3y.date <= lc.as_of - INTERVAL '3 years'
ORDER BY lc.ticker;"@,
        ),
        view_sql_of("broker_net"@) == Some(
            "CREATE TABLE broker_net AS
SELECT ticker, date, broker_code,
  sum(value) FILTER (WHERE side = 'B') AS buy_value,
  sum(value) FILTER (WHERE side = 'S') AS sell_value,
  coalesce(sum(value) FILTER (WHERE side = 'B'), 0) - coalesce(sum(value) FILTER (WHERE side = 'S'), 0) AS net_value,
  sum(volume_lot) FILTER (WHERE side = 'B') AS buy_volume_lot,
  sum(volume_lot) FILTER (WHERE side = 'S') AS sell_volume_lot,
  coalesce(sum(volume_lot) FILTER (WHERE side = 'B'), 0) - coalesce(sum(volume_lot) FILTER (WHERE side = 'S'), 0) AS net_volume_lot
FROM broker_activity
GROUP BY ticker, date, broker_code
ORDER BY ticker, date;"@,
        ),
        name != "latest"@ && name != "returns"@ && name != "broker_net"@ ==> view_sql_of(name)
            is None,
{
    reveal_strlit("latest");
    reveal_strlit("returns");
    reveal_strlit("broker_net");
    assert("latest"@.len() == 6 && "returns"@.len() == 7 && "broker_net"@.len() == 10);
}

/// A view is built exactly if all the tables that it needs are loaded.
pub proof fn law_a_view_is_built_iff_its_tables_are_loaded(tables: Seq<Seq<char>>, k: int)
    requires
        0 <= k < view_names().len(),
    ensures
        buildable(tables, view_names().len()).contains(view_names()[k]) <==> forall|j: int|
            0 <= j < view_requires()[k].len() ==> tables.contains(#[trigger] view_requires()[k][j]),
{
    let n = view_names().len();
    law_names_are_unique();
    let c = catalog_names();
    let base = dataset_names().len() as int;
    assert forall|i: int, j: int|
        0 <= i < n && 0 <= j < n && i != j implies #[trigger] view_names()[i]
        != #[trigger] view_names()[j] by {
        assert(c[base + i] != c[base + j]);
    }
    law_every_view_has_a_statement(k);
    lemma_buildable(tables, n, k);
}

proof fn lemma_buildable(tables: Seq<Seq<char>>, n: nat, k: int)
    requires
        n <= view_names().len(),
        0 <= k < view_names().len(),
        view_sql_of(view_names()[k]) is Some,
        forall|i: int, j: int|
            0 <= i < view_names().len() && 0 <= j < view_names().len() && i != j
                ==> #[trigger] view_names()[i] != #[trigger] view_names()[j],
    ensures
        buildable(tables, n).contains(view_names()[k]) <==> k < n && all_among(
            view_requires()[k],
            tables,
        ),
    decreases n,
{
    if n > 0 {
        let before = buildable(tables, (n - 1) as nat);
        let all = buildable(tables, n);
        let x = view_names()[k];
        lemma_buildable(tables, (n - 1) as nat, k);
        if before.contains(x) {
            let i = choose|i: int| 0 <= i < before.len() && before[i] == x;
            assert(all[i] == x);
        }
        if all.contains(x) && !before.contains(x) {
            let i = choose|i: int| 0 <= i < all.len() && all[i] == x;
            if i < before.len() {
                assert(before[i] == x);
            }
            assert(k == n - 1);
        }
        if k == n - 1 && all_among(view_requires()[k], tables) {
            assert(all[all.len() - 1] == x);
        }
    }
}

/// What succeeded keeps the order of the statements: where all succeed all are loaded in
/// their order, and one more statement adds its own name behind the others, if it
/// succeeds.
pub proof fn law_loaded_relations_keep_their_order(
    names: Seq<Seq<char>>,
    ok: Seq<bool>,
    x: Seq<char>,
    good: bool,
)
    requires
        names.len() == ok.len(),
    ensures
        (forall|i: int| 0 <= i < ok.len() ==> ok[i]) ==> succeeded(names, ok) == names,
        good ==> succeeded(names.push(x), ok.push(good)) == succeeded(names, ok).push(x),
        !good ==> succeeded(names.push(x), ok.push(good)) == succeeded(names, ok),
{
    if forall|i: int| 0 <= i < ok.len() ==> ok[i] {
        lemma_all_succeeded(names, ok);
    }
    assert(names.push(x).drop_last() =~= names);
    lemma_outcomes(names, ok, ok.push(good));
}

proof fn lemma_all_succeeded(names: Seq<Seq<char>>, ok: Seq<bool>)
    requires
        names.len() <= ok.len(),
        forall|i: int| 0 <= i < ok.len() ==> ok[i],
    ensures
        succeeded(names, ok) == names,
    decreases names.len(),
{
    if names.len() > 0 {
        lemma_all_succeeded(names.drop_last(), ok);
        assert(names.drop_last().push(names.last()) =~= names);
    }
}

proof fn lemma_outcomes(names: Seq<Seq<char>>, a: Seq<bool>, b: Seq<bool>)
    requires
        names.len() <= a.len(),
        names.len() <= b.len(),
        forall|i: int| 0 <= i < names.len() ==> a[i] == b[i],
    ensures
        succeeded(names, a) == succeeded(names, b),
    decreases names.len(),
{
    if names.len() > 0 {
        lemma_outcomes(names.drop_last(), a, b);
    }
}

/// The data root is what was configured, without the slashes at its end; only R2 needs a
/// secret, which carries its key, its secret and its account, each under its own name.
pub proof fn law_sources_know_their_root_and_secret(
    dir: Seq<char>,
    slashes: nat,
    account_id: Seq<char>,
    key_id: Seq<char>,
    secret: Seq<char>,
)
    requires
        dir.len() > 0 ==> dir.last() != '/',
    ensures
        ({
            let path = dir + repeated('/', slashes);
            let local = DataBaseView::Local(path);
            let remote = DataBaseView::R2 { base: path, account_id, key_id, secret };
            &&& root_of(local) == dir
            &&& root_of(remote) == dir
            &&& secret_of(local) is None
            &&& secret_of(remote) == Some(
                "CREATE OR REPLACE SECRET r2 (TYPE r2, KEY_ID '"@ + key_id + "', SECRET '"@ + secret
                    + "', ACCOUNT_ID '"@ + account_id + "');"@,
            )
        }),
{
    law_stripping_takes_the_tail(dir, '/', slashes);
}

/// The loader is kept to four threads before anything else, and then given its secret.
pub proof fn law_the_loader_is_limited_first(secret: Seq<char>)
    ensures
        setup_of(None) == seq!["SET threads TO 4;"@],
        setup_of(Some(secret)) == seq!["SET threads TO 4;"@, secret],
{
}

/// The settings of the serving instance: eight connections, fifteen seconds and two
/// gigabytes where nothing else is asked for; one to sixty-four connections, and two to
/// sixteen threads, whatever is asked for.
pub proof fn law_settings_have_defaults_and_bounds(
    n: nat,
    text: Seq<char>,
    parallelism: usize,
)
    ensures
        connections_for(None) == 8,
        unsigned_value(text) is None ==> connections_for(Some(text)) == 8,
        n == 0 ==> connections_for(Some(decimal(n))) == 1,
        1 <= n <= 64 ==> connections_for(Some(decimal(n))) == n,
        64 < n <= usize::MAX ==> connections_for(Some(decimal(n))) == 64,
        n > usize::MAX ==> connections_for(Some(decimal(n))) == 8,
        timeout_for(None) == 15,
        unsigned_value(text) is None ==> timeout_for(Some(text)) == 15,
        n <= u64::MAX ==> timeout_for(Some(decimal(n))) == n,
        n > u64::MAX ==> timeout_for(Some(decimal(n))) == 15,
        memory_for(None) == "2GB"@,
        memory_for(Some(text)) == text,
        threads_for(None) == 4,
        parallelism < 2 ==> threads_for(Some(parallelism)) == 2,
        2 <= parallelism <= 16 ==> threads_for(Some(parallelism)) == parallelism,
        parallelism > 16 ==> threads_for(Some(parallelism)) == 16,
        LOCK_SQL@ == "SET lock_configuration = true;"@,
{
    lemma_decimal_value(n);
}

/// A serving directory is cleared only if its process is another one and has died.
pub proof fn law_only_the_dead_are_cleared(pid: u32, me: u32, alive: bool)
    ensures
        alive ==> !left_behind(pid, me, alive),
        !left_behind(me, me, alive),
        pid != me ==> left_behind(pid, me, false),
{
}

/// The names of serving files and directories: the version between two fixed parts, the
/// process and the instance with a dash between them.
pub proof fn law_serving_files_are_named_by_version(version: nat, pid: nat, instance: nat)
    ensures
        file_name(version) == "serving-"@ + decimal(version) + ".duckdb"@,
        instance_name(pid, instance) == decimal(pid) + "-"@ + decimal(instance),
        !serving_file(decimal(version)),
{
    lemma_decimal_value(version);
    reveal_strlit("serving-");
    let d = decimal(version);
    if serving_file(d) {
        assert(d.subrange(0, 8)[0] == d[0]);
        assert("serving-"@[0] == 's');
        assert(is_digit(d[0]));
    }
}

/// The serving database is opened read-only, without external access and without loading
/// extensions, and its settings are locked, whatever the environment says.
pub proof fn law_the_serving_database_is_sealed(o: ServingOptions, env: ServingEnv)
    requires
        opened_for(o, env),
    ensures
        o.read_only && !o.external_access && !o.autoload_extension,
        o.lock_sql@ == "SET lock_configuration = true;"@,
        1 <= o.connections <= 64,
        2 <= o.threads <= 16,
        env.max_memory is None ==> o.max_memory@ == "2GB"@,
        env.max_memory is Some ==> o.max_memory@ == env.max_memory->0@,
        env.connections is None ==> o.connections == 8,
        env.parallelism is None ==> o.threads == 4,
{
}

/// A rebuild that has a table is served at once; the reason that one is not served is its
/// own failure, or that nothing could be loaded from the data root.
pub proof fn law_a_good_rebuild_is_served<T>(
    old_build: Build<T>,
    built: Result<Build<T>, String>,
    e: BuildError,
    base: Seq<char>,
)
    ensures
        built is Ok && built->Ok_0.tables@.len() > 0 ==> servable(built) && served(
            old_build,
            built,
        ) == built->Ok_0,
        built is Err ==> !servable(built) && (tells_why(e, built, base) <==> e is Failed
            && e->Failed_0@ == built->Err_0@),
        built is Ok ==> (tells_why(e, built, base) <==> e is Empty && e->Empty_0@
            == EngineErrorView::NoDatasets(base)),
        built is Ok && built->Ok_0.tables@.len() == 0 ==> !servable(built),
{
}

/// A serving file has something between its two fixed parts; a name that lacks either is
/// none.
pub proof fn law_other_files_are_no_serving_files(middle: Seq<char>, name: Seq<char>)
    ensures
        serving_file("serving-"@ + middle + ".duckdb"@),
        !starts(name, "serving-"@) ==> !serving_file(name),
        !ends(name, ".duckdb"@) ==> !serving_file(name),
{
    let none = Seq::<char>::empty();
    let full = "serving-"@ + middle + ".duckdb"@;
    assert(full =~= "serving-"@ + (middle + ".duckdb"@));
    law_parts_of_texts(none, "serving-"@, middle + ".duckdb"@, full);
    law_parts_of_texts("serving-"@ + middle, ".duckdb"@, none, full);
}

/// A directory belongs to the process whose number stands before its first dash, if that
/// is a process number and a number follows; any other directory belongs to none.
pub proof fn law_the_number_before_the_dash_is_the_owner(a: Seq<char>, b: Seq<char>)
    requires
        !a.contains('-'),
    ensures
        ({
            let owner = owner_of(a + "-"@ + b);
            let good = unsigned_value(a) is Some && unsigned_value(a)->0 <= 4294967295
                && unsigned_value(b) is Some && unsigned_value(b)->0 <= 18446744073709551615;
            &&& good ==> owner == Some(unsigned_value(a)->0)
            &&& !good ==> owner is None
        }),
        owner_of(a) is None,
{
    reveal_strlit("-");
    let name = a + "-"@ + b;
    let n = a.len() as int;
    lemma_first_index(name, '-');
    assert(name[n] == '-');
    assert(name.contains(name[n]));
    let k = first_index(name, '-')->0;
    if k < n {
        assert(name[k] == a[k]);
        assert(a.contains(a[k]));
    }
    assert(k == n);
    assert(name.take(n) =~= a);
    assert(name.skip(n + 1) =~= b);
    lemma_first_index(a, '-');
    if first_index(a, '-') is Some {
        assert(a.contains(a[first_index(a, '-')->0]));
    }
}

} // verus!
