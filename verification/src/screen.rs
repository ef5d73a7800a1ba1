//! The `screen_stocks` statement builder.
//!
//! Fields and operators are matched against the catalog; numeric values are
//! bound and cast to DOUBLE, text values bound. No value is ever written into
//! the statement.

use vstd::prelude::*;
use vstd::string::*;

use crate::catalog::law_seventeen_fields_are_screenable;
use crate::catalog::listed;
use crate::catalog::numeric_fields;
use crate::catalog::screen_fields_num;
use crate::catalog::screen_fields_text;
use crate::catalog::text_fields;
use crate::json::Json;
use crate::json::JsonView;
use crate::text::ascii_lower;
use crate::text::decimal;
use crate::text::is_digit;
use crate::text::is_number_text;
use crate::text::join;
use crate::text::joined;
use crate::text::lemma_decimal_value;
use crate::text::lower;
use crate::text::push_decimal;
use crate::text::same_text;
use crate::text::texts;
use crate::text::writes_number;
use crate::tools::limited;
use crate::tools::planned;
use crate::tools::row_limit;
use crate::tools::Plan;
use crate::tools::PlanView;
use crate::tools::ToolError;
use crate::tools::ToolErrorView;

verus! {

/// A cross-sectional screen over the per-ticker `latest` snapshot.
#[derive(Debug)]
pub struct ScreenReq {
    /// Filters, all AND-ed, over the per-ticker `latest` snapshot.
    pub filters: Vec<ScreenFilter>,
    /// Optional sort (defaults to `market_cap` descending).
    pub sort: Option<ScreenSort>,
    /// Max results (default 50, hard cap 5000).
    pub limit: Option<u32>,
}

/// One condition of a screen.
#[derive(Debug)]
pub struct ScreenFilter {
    /// Field to filter on; see `describe_schema latest` for the options.
    pub field: String,
    /// `= != < <= > >= between` for numeric fields, `= in` for `sector`.
    pub op: String,
    /// A number, a string (for `sector`), or a 2-element array for `between` / a list for `in`.
    pub value: Json,
}

/// The order of a screen's rows.
#[derive(Debug)]
pub struct ScreenSort {
    /// Field to sort by.
    pub field: String,
    /// Descending if true (default true).
    pub desc: Option<bool>,
}

/// The mathematical value of a [`ScreenFilter`].
pub struct FilterView {
    pub field: Seq<char>,
    pub op: Seq<char>,
    pub value: JsonView,
}

impl ScreenFilter {
    /// The mathematical value.
    pub open spec fn view(&self) -> FilterView {
        FilterView { field: self.field@, op: self.op@, value: self.value@ }
    }
}

/// The values of some filters.
pub open spec fn filter_views(f: Seq<ScreenFilter>) -> Seq<FilterView> {
    f.map_values(|x: ScreenFilter| x@)
}

// ---- one filter ----

/// What one filter adds to the statement: a condition, and the values to bind
/// to its holes.
#[derive(Debug)]
pub struct Term {
    pub clause: String,
    pub params: Vec<String>,
}

/// The mathematical value of a [`Term`].
pub struct TermView {
    pub clause: Seq<char>,
    pub params: Seq<Seq<char>>,
}

impl Term {
    /// The mathematical value.
    pub open spec fn view(&self) -> TermView {
        TermView { clause: self.clause@, params: texts(self.params@) }
    }
}

/// The text to bind for a numeric value: that of a number, or a text that
/// writes one.
pub open spec fn num_text(v: JsonView) -> Option<Seq<char>> {
    match v {
        JsonView::Number(t) => Some(t),
        JsonView::Text(s) => if is_number_text(s) {
            Some(s)
        } else {
            None
        },
        _ => None,
    }
}

/// The operators that compare with one number.
pub open spec fn compares(op: Seq<char>) -> bool {
    op == "="@ || op == "!="@ || op == "<"@ || op == "<="@ || op == ">"@ || op == ">="@
}

/// A field name between double quotes.
pub open spec fn quoted(field: Seq<char>) -> Seq<char> {
    "\""@ + field + "\""@
}

/// As many `?` as there are values.
pub open spec fn marks(n: nat) -> Seq<Seq<char>> {
    Seq::new(n, |i: int| "?"@)
}

/// The texts of a list of values, if each of them is a text.
pub open spec fn all_texts(items: Seq<JsonView>) -> Option<Seq<Seq<char>>> {
    if forall|i: int| 0 <= i < items.len() ==> (#[trigger] items[i]) is Text {
        Some(items.map_values(|v: JsonView| v->Text_0))
    } else {
        None
    }
}

/// What a filter on a numeric field adds, or why it is refused.
pub open spec fn numeric_term(field: Seq<char>, op: Seq<char>, value: JsonView) -> Result<
    TermView,
    Seq<char>,
> {
    if compares(op) {
        match num_text(value) {
            Some(t) => Ok(
                TermView {
                    clause: quoted(field) + " "@ + op + " CAST(? AS DOUBLE)"@,
                    params: seq![t],
                },
            ),
            None => Err("expected a number"@),
        }
    } else if op == "between"@ {
        match value {
            JsonView::Array(items) => if items.len() != 2 {
                Err("between needs a [low, high] array"@)
            } else {
                match (num_text(items[0]), num_text(items[1])) {
                    (Some(low), Some(high)) => Ok(
                        TermView {
                            clause: quoted(field)
                                + " BETWEEN CAST(? AS DOUBLE) AND CAST(? AS DOUBLE)"@,
                            params: seq![low, high],
                        },
                    ),
                    _ => Err("expected a number"@),
                }
            },
            _ => Err("between needs a [low, high] array"@),
        }
    } else {
        Err("operator '"@ + op + "' not allowed on numeric field "@ + field)
    }
}

/// What a filter on a text field adds, or why it is refused.
pub open spec fn text_term(field: Seq<char>, op: Seq<char>, value: JsonView) -> Result<
    TermView,
    Seq<char>,
> {
    if op == "="@ {
        match value {
            JsonView::Text(s) => Ok(TermView { clause: quoted(field) + " = ?"@, params: seq![s] }),
            _ => Err("sector = needs a string"@),
        }
    } else if op == "in"@ {
        match value {
            JsonView::Array(items) => if items.len() == 0 {
                Err("in needs a non-empty array"@)
            } else {
                match all_texts(items) {
                    Some(t) => Ok(
                        TermView {
                            clause: quoted(field) + " IN ("@ + joined(marks(items.len()), ", "@)
                                + ")"@,
                            params: t,
                        },
                    ),
                    None => Err("in values must be strings"@),
                }
            },
            _ => Err("in needs a non-empty array"@),
        }
    } else {
        Err("operator '"@ + op + "' not allowed on field "@ + field)
    }
}

/// What one filter adds, or why it is refused. The letter case of the field and
/// of the operator does not matter.
pub open spec fn term(f: FilterView) -> Result<TermView, Seq<char>> {
    let field = lower(f.field);
    let op = lower(f.op);
    if numeric_fields().contains(field) {
        numeric_term(field, op, f.value)
    } else if text_fields().contains(field) {
        text_term(field, op, f.value)
    } else {
        Err("not a screenable field: "@ + f.field)
    }
}

/// A term or the reason why there is none.
pub open spec fn term_outcome(r: Result<Term, ToolError>) -> Result<TermView, ToolErrorView> {
    match r {
        Ok(t) => Ok(t@),
        Err(e) => Err(e@),
    }
}

/// A refusal of the caller's request.
pub open spec fn refusal<T>(r: Result<T, Seq<char>>) -> Result<T, ToolErrorView> {
    match r {
        Ok(t) => Ok(t),
        Err(m) => Err(ToolErrorView::InvalidParams(m)),
    }
}

fn invalid(message: &str) -> (r: ToolError)
    ensures
        r@ == ToolErrorView::InvalidParams(message@),
{
    ToolError::InvalidParams(message.to_string())
}

/// The text to bind for a numeric value.
fn num(v: &Json) -> (r: Option<String>)
    ensures
        match r {
            Some(t) => num_text(v@) == Some(t@),
            None => num_text(v@) is None,
        },
{
    match v {
        Json::Number(t) => Some(t.clone()),
        Json::Text(s) => if writes_number(s.as_str()) {
            Some(s.clone())
        } else {
            None
        },
        _ => None,
    }
}

fn is_comparison(op: &str) -> (r: bool)
    ensures
        r == compares(op@),
{
    same_text(op, "=") || same_text(op, "!=") || same_text(op, "<") || same_text(op, "<=")
        || same_text(op, ">") || same_text(op, ">=")
}

fn quote_field(field: &str) -> (r: String)
    ensures
        r@ == quoted(field@),
{
    let mut s = "\"".to_string();
    s.append(field);
    s.append("\"");
    s
}

fn operator_refused(op: &str, middle: &str, field: &str) -> (r: ToolError)
    ensures
        r@ == ToolErrorView::InvalidParams("operator '"@ + op@ + middle@ + field@),
{
    let mut s = "operator '".to_string();
    s.append(op);
    s.append(middle);
    s.append(field);
    ToolError::InvalidParams(s)
}

fn numeric_filter(field: &str, op: &str, value: &Json) -> (r: Result<Term, ToolError>)
    ensures
        term_outcome(r) == refusal(numeric_term(field@, op@, value@)),
{
    let mut params: Vec<String> = Vec::new();
    if is_comparison(op) {
        match num(value) {
            None => Err(invalid("expected a number")),
            Some(t) => {
                let mut clause = quote_field(field);
                clause.append(" ");
                clause.append(op);
                clause.append(" CAST(? AS DOUBLE)");
                let ghost bound = t@;
                params.push(t);
                assert(texts(params@) =~= seq![bound]);
                Ok(Term { clause, params })
            },
        }
    } else if same_text(op, "between") {
        match value {
            Json::Array(items) => if items.len() != 2 {
                Err(invalid("between needs a [low, high] array"))
            } else {
                let ghost w = value@->Array_0;
                assert(w[0] == items@[0]@ && w[1] == items@[1]@);
                match num(&items[0]) {
                    None => Err(invalid("expected a number")),
                    Some(low) => match num(&items[1]) {
                        None => Err(invalid("expected a number")),
                        Some(high) => {
                            let mut clause = quote_field(field);
                            clause.append(" BETWEEN CAST(? AS DOUBLE) AND CAST(? AS DOUBLE)");
                            let ghost bound = seq![low@, high@];
                            params.push(low);
                            params.push(high);
                            assert(texts(params@) =~= bound);
                            Ok(Term { clause, params })
                        },
                    },
                }
            },
            _ => Err(invalid("between needs a [low, high] array")),
        }
    } else {
        Err(operator_refused(op, "' not allowed on numeric field ", field))
    }
}

fn text_filter(field: &str, op: &str, value: &Json) -> (r: Result<Term, ToolError>)
    ensures
        term_outcome(r) == refusal(text_term(field@, op@, value@)),
{
    let mut params: Vec<String> = Vec::new();
    if same_text(op, "=") {
        match value {
            Json::Text(s) => {
                let mut clause = quote_field(field);
                clause.append(" = ?");
                params.push(s.clone());
                assert(texts(params@) =~= seq![s@]);
                Ok(Term { clause, params })
            },
            _ => Err(invalid("sector = needs a string")),
        }
    } else if same_text(op, "in") {
        match value {
            Json::Array(items) => if items.len() == 0 {
                Err(invalid("in needs a non-empty array"))
            } else {
                let ghost w = value@->Array_0;
                let mut holes: Vec<String> = Vec::new();
                let mut i: usize = 0;
                while i < items.len()
                    invariant
                        i <= items@.len(),
                        op@ != "="@ && op@ == "in"@,
                        value@ == JsonView::Array(w),
                        0 < w.len() == items@.len(),
                        forall|j: int| 0 <= j < w.len() ==> #[trigger] w[j] == items@[j]@,
                        forall|j: int| 0 <= j < i ==> (#[trigger] w[j]) is Text,
                        texts(params@) == w.take(i as int).map_values(|v: JsonView| v->Text_0),
                        texts(holes@) == marks(i as nat),
                    decreases items@.len() - i,
                {
                    match items[i].text() {
                        None => {
                            assert(!(w[i as int] is Text));
                            return Err(invalid("in values must be strings"));
                        },
                        Some(s) => {
                            assert(w[i as int] == JsonView::Text(s@));
                            let ghost before = texts(params@);
                            let ghost holes_before = texts(holes@);
                            holes.push("?".to_string());
                            params.push(s.clone());
                            proof {
                                assert(texts(params@) =~= before.push(s@));
                                assert(texts(params@) =~= w.take(i + 1).map_values(
                                    |v: JsonView| v->Text_0,
                                ));
                                assert(texts(holes@) =~= holes_before.push("?"@));
                                assert(texts(holes@) =~= marks((i + 1) as nat));
                            }
                        },
                    }
                    i = i + 1;
                }
                assert(w.take(i as int) =~= w);
                let mut clause = quote_field(field);
                clause.append(" IN (");
                clause.append(join(&holes, ", ").as_str());
                clause.append(")");
                Ok(Term { clause, params })
            },
            _ => Err(invalid("in needs a non-empty array")),
        }
    } else {
        Err(operator_refused(op, "' not allowed on field ", field))
    }
}

/// What one filter adds to the statement. A number in the filter stands for the
/// text to bind.
pub fn screen_term(f: &ScreenFilter) -> (r: Result<Term, ToolError>)
    ensures
        term_outcome(r) == refusal(term(f@)),
{
    let field = ascii_lower(f.field.as_str());
    let op = ascii_lower(f.op.as_str());
    if listed(&screen_fields_num(), field.as_str()) {
        numeric_filter(field.as_str(), op.as_str(), &f.value)
    } else if listed(&screen_fields_text(), field.as_str()) {
        text_filter(field.as_str(), op.as_str(), &f.value)
    } else {
        let mut m = "not a screenable field: ".to_string();
        m.append(f.field.as_str());
        Err(ToolError::InvalidParams(m))
    }
}

// ---- the whole statement ----

/// What some filters add, or why the first refused one is refused.
pub open spec fn terms(f: Seq<FilterView>) -> Result<Seq<TermView>, Seq<char>>
    decreases f.len(),
{
    if f.len() == 0 {
        Ok(Seq::empty())
    } else {
        match terms(f.drop_last()) {
            Err(m) => Err(m),
            Ok(done) => match term(f.last()) {
                Err(m) => Err(m),
                Ok(t) => Ok(done.push(t)),
            },
        }
    }
}

/// The conditions of some terms.
pub open spec fn clauses(t: Seq<TermView>) -> Seq<Seq<char>> {
    t.map_values(|x: TermView| x.clause)
}

/// The values that some terms bind, in the order of their holes.
pub open spec fn params_of(t: Seq<TermView>) -> Seq<Seq<char>>
    decreases t.len(),
{
    if t.len() == 0 {
        Seq::empty()
    } else {
        params_of(t.drop_last()) + t.last().params
    }
}

/// The condition of the statement.
pub open spec fn where_sql(t: Seq<TermView>) -> Seq<char> {
    if t.len() == 0 {
        Seq::empty()
    } else {
        " WHERE "@ + joined(clauses(t), " AND "@)
    }
}

/// True if rows may be sorted by `field`.
pub open spec fn sortable(field: Seq<char>) -> bool {
    numeric_fields().contains(lower(field)) || text_fields().contains(lower(field))
}

/// The order of the rows.
pub open spec fn order_sql(sort: Option<ScreenSort>) -> Seq<char> {
    match sort {
        Some(s) => " ORDER BY "@ + quoted(lower(s.field@)) + " "@ + (if s.desc == Some(false) {
            "ASC"@
        } else {
            "DESC"@
        }) + " NULLS LAST"@,
        None => " ORDER BY market_cap DESC NULLS LAST"@,
    }
}

/// The statement of a screen.
pub open spec fn screen_sql(t: Seq<TermView>, sort: Option<ScreenSort>, limit: Option<u32>) -> Seq<
    char,
> {
    "SELECT * FROM latest"@ + where_sql(t) + order_sql(sort) + " LIMIT "@ + decimal(
        limited(limit, 50),
    )
}

/// The plan of a screen, or why it is refused: the first refused filter, then
/// the sort field.
pub open spec fn screen(f: Seq<FilterView>, sort: Option<ScreenSort>, limit: Option<u32>) -> Result<
    PlanView,
    Seq<char>,
> {
    match terms(f) {
        Err(m) => Err(m),
        Ok(t) => if sort is Some && !sortable(sort->Some_0.field@) {
            Err("not a sortable field: "@ + sort->Some_0.field@)
        } else {
            Ok(PlanView { sql: screen_sql(t, sort, limit), params: params_of(t) })
        },
    }
}

proof fn lemma_terms_err(f: Seq<FilterView>, i: int)
    requires
        0 <= i <= f.len(),
        terms(f.take(i)) is Err,
    ensures
        terms(f) == terms(f.take(i)),
    decreases f.len() - i,
{
    if i == f.len() {
        assert(f.take(i) =~= f);
    } else {
        assert(f.take(i + 1).drop_last() =~= f.take(i));
        lemma_terms_err(f, i + 1);
    }
}

fn order_clause(sort: &Option<ScreenSort>) -> (r: Result<String, ToolError>)
    ensures
        match r {
            Ok(s) => s@ == order_sql(*sort) && (*sort is Some ==> sortable(sort->Some_0.field@)),
            Err(e) => *sort is Some && !sortable(sort->Some_0.field@) && e@
                == ToolErrorView::InvalidParams("not a sortable field: "@ + sort->Some_0.field@),
        },
{
    match sort {
        None => Ok(" ORDER BY market_cap DESC NULLS LAST".to_string()),
        Some(by) => {
            let field = ascii_lower(by.field.as_str());
            if !listed(&screen_fields_num(), field.as_str()) && !listed(
                &screen_fields_text(),
                field.as_str(),
            ) {
                let mut m = "not a sortable field: ".to_string();
                m.append(by.field.as_str());
                return Err(ToolError::InvalidParams(m));
            }
            let descending = match by.desc {
                Some(d) => d,
                None => true,
            };
            let mut s = " ORDER BY ".to_string();
            s.append(quote_field(field.as_str()).as_str());
            s.append(" ");
            if descending {
                s.append("DESC");
            } else {
                s.append("ASC");
            }
            s.append(" NULLS LAST");
            Ok(s)
        },
    }
}

/// Builds the statement of a screen whose numbers stand for the texts to bind.
pub fn compose_screen(
    filters: &Vec<ScreenFilter>,
    sort: &Option<ScreenSort>,
    limit: Option<u32>,
) -> (r: Result<Plan, ToolError>)
    ensures
        planned(r) == refusal(screen(filter_views(filters@), *sort, limit)),
{
    let ghost f = filter_views(filters@);
    let ghost mut done: Seq<TermView> = Seq::empty();
    let mut conditions: Vec<String> = Vec::new();
    let mut params: Vec<String> = Vec::new();
    let mut i: usize = 0;
    proof {
        assert(f.take(0) =~= Seq::empty());
        assert(texts(conditions@) =~= clauses(done));
        assert(texts(params@) =~= params_of(done));
    }
    while i < filters.len()
        invariant
            i <= filters@.len(),
            f == filter_views(filters@),
            done.len() == i,
            terms(f.take(i as int)) == Ok::<_, Seq<char>>(done),
            texts(conditions@) == clauses(done),
            texts(params@) == params_of(done),
        decreases filters@.len() - i,
    {
        proof {
            assert(f.take(i + 1).drop_last() =~= f.take(i as int));
            assert(f.take(i + 1).last() == filters@[i as int]@);
        }
        match screen_term(&filters[i]) {
            Err(e) => {
                proof {
                    lemma_terms_err(f, i + 1);
                }
                return Err(e);
            },
            Ok(t) => {
                let ghost w = t@;
                let mut t = t;
                let ghost before = texts(params@);
                let ghost conditions_before = texts(conditions@);
                conditions.push(t.clause);
                params.append(&mut t.params);
                proof {
                    let next = done.push(w);
                    assert(next.drop_last() =~= done);
                    assert(texts(conditions@) =~= conditions_before.push(w.clause));
                    assert(texts(conditions@) =~= clauses(next));
                    assert(texts(params@) =~= before + w.params);
                    done = next;
                }
            },
        }
        i = i + 1;
    }
    assert(f.take(i as int) =~= f);
    let order = match order_clause(sort) {
        Err(e) => {
            return Err(e);
        },
        Ok(s) => s,
    };
    let mut sql = "SELECT * FROM latest".to_string();
    if conditions.len() > 0 {
        sql.append(" WHERE ");
        sql.append(join(&conditions, " AND ").as_str());
    }
    proof {
        assert(clauses(done).len() == conditions@.len());
        assert(sql@ =~= "SELECT * FROM latest"@ + where_sql(done));
    }
    sql.append(order.as_str());
    sql.append(" LIMIT ");
    push_decimal(&mut sql, row_limit(limit, 50) as u64);
    Ok(Plan { sql, params })
}

// ---- numbers ----

/// A number of `serde_json`; here it holds a double.
#[verifier::external_type_specification]
#[verifier::external_body]
pub struct ExNumber(serde_json::Number);

/// The double nearest to the number that a text writes, if it writes a finite one.
pub uninterp spec fn nearest_double(text: Seq<char>) -> Option<serde_json::Number>;

/// The text in which the standard formatter shows a double.
pub uninterp spec fn double_shown(n: serde_json::Number) -> Option<Seq<char>>;

/// `str::parse` to a double, the nearest to the number that `text` writes; `None` if
/// it writes none. What was read is held as a `serde_json::Number`, whose `from_f64`
/// takes every finite double and no other.
#[verifier::external_body]
fn read_double(text: &str) -> (r: Option<serde_json::Number>)
    ensures
        r == nearest_double(text@),
{
    text.parse().ok().and_then(serde_json::Number::from_f64)
}

/// `to_string` on the double that a `serde_json::Number` holds: the text depends on
/// the double alone.
#[verifier::external_body]
fn show_double(n: &serde_json::Number) -> (r: Option<String>)
    ensures
        match r {
            Some(t) => double_shown(*n) == Some(t@),
            None => double_shown(*n) is None,
        },
{
    n.as_f64().map(|d| d.to_string())
}

/// The text of a number at double precision, if a text writes one.
pub open spec fn double_text(number: Seq<char>) -> Option<Seq<char>> {
    match nearest_double(number) {
        Some(n) => double_shown(n),
        None => None,
    }
}

fn shown_as_double(number: &str) -> (r: Option<String>)
    ensures
        match r {
            Some(t) => double_text(number@) == Some(t@),
            None => double_text(number@) is None,
        },
{
    match read_double(number) {
        Some(n) => show_double(&n),
        None => None,
    }
}

/// A value with a number replaced by its text at double precision.
pub open spec fn bound_number(v: JsonView) -> JsonView {
    match v {
        JsonView::Number(t) => match double_text(t) {
            Some(d) => JsonView::Number(d),
            None => JsonView::Null,
        },
        _ => v,
    }
}

/// A filter value with its numbers replaced by their texts at double precision.
pub open spec fn bound_value(v: JsonView) -> JsonView {
    match v {
        JsonView::Array(items) => JsonView::Array(
            items.map_values(|x: JsonView| bound_number(x)),
        ),
        _ => bound_number(v),
    }
}

/// Filters with their numbers replaced by their texts at double precision.
pub open spec fn bound_filters(f: Seq<FilterView>) -> Seq<FilterView> {
    f.map_values(
        |x: FilterView| FilterView { field: x.field, op: x.op, value: bound_value(x.value) },
    )
}

fn bind_number(v: Json) -> (r: Json)
    ensures
        r@ == bound_number(v@),
{
    match v {
        Json::Number(t) => match shown_as_double(t.as_str()) {
            Some(d) => Json::Number(d),
            None => Json::Null,
        },
        _ => v,
    }
}

fn bind_value(v: Json) -> (r: Json)
    ensures
        r@ == bound_value(v@),
{
    match v {
        Json::Array(items) => {
            let ghost w = v@->Array_0;
            let ghost all = items@;
            let mut out: Vec<Json> = Vec::new();
            for head in it: items
                invariant
                    it.seq() == all,
                    w.len() == all.len(),
                    forall|i: int| 0 <= i < w.len() ==> #[trigger] w[i] == all[i]@,
                    out@.len() == it.index(),
                    forall|i: int|
                        0 <= i < out@.len() ==> (#[trigger] out@[i])@ == bound_number(w[i]),
            {
                out.push(bind_number(head));
            }
            let r = Json::Array(out);
            assert(r@->Array_0 =~= w.map_values(|x: JsonView| bound_number(x)));
            r
        },
        _ => bind_number(v),
    }
}

/// Builds a safe `SELECT * FROM latest ...` from typed filters.
pub fn build_screen(req: ScreenReq) -> (r: Result<Plan, ToolError>)
    ensures
        planned(r) == refusal(
            screen(bound_filters(filter_views(req.filters@)), req.sort, req.limit),
        ),
{
    let ghost all = req.filters@;
    let mut filters: Vec<ScreenFilter> = Vec::new();
    for f in it: req.filters
        invariant
            it.seq() == all,
            filters@.len() == it.index(),
            forall|i: int|
                0 <= i < filters@.len() ==> (#[trigger] filters@[i])@ == (FilterView {
                    field: all[i].field@,
                    op: all[i].op@,
                    value: bound_value(all[i].value@),
                }),
    {
        filters.push(ScreenFilter { field: f.field, op: f.op, value: bind_value(f.value) });
    }
    assert(filter_views(filters@) =~= bound_filters(filter_views(all)));
    compose_screen(&filters, &req.sort, req.limit)
}

// ---- what holds of every screen ----

/// The number of holes in a statement: the places where a value is bound.
pub open spec fn holes(s: Seq<char>) -> nat
    decreases s.len(),
{
    if s.len() == 0 {
        0
    } else {
        holes(s.drop_last()) + (if s.last() == '?' {
            1nat
        } else {
            0
        })
    }
}

/// The number of holes in a list of conditions.
pub open spec fn total_holes(parts: Seq<Seq<char>>) -> nat
    decreases parts.len(),
{
    if parts.len() == 0 {
        0
    } else {
        total_holes(parts.drop_last()) + holes(parts.last())
    }
}

proof fn lemma_holes_concat(a: Seq<char>, b: Seq<char>)
    ensures
        holes(a + b) == holes(a) + holes(b),
    decreases b.len(),
{
    if b.len() == 0 {
        assert(a + b =~= a);
    } else {
        assert((a + b).drop_last() =~= a + b.drop_last());
        lemma_holes_concat(a, b.drop_last());
    }
}

proof fn lemma_no_holes(s: Seq<char>)
    requires
        forall|i: int| 0 <= i < s.len() ==> s[i] != '?',
    ensures
        holes(s) == 0,
    decreases s.len(),
{
    if s.len() > 0 {
        lemma_no_holes(s.drop_last());
    }
}

proof fn lemma_one_hole(s: Seq<char>, at: int)
    requires
        0 <= at < s.len(),
        s[at] == '?',
        forall|i: int| 0 <= i < s.len() && i != at ==> s[i] != '?',
    ensures
        holes(s) == 1,
    decreases s.len(),
{
    if at == s.len() - 1 {
        lemma_no_holes(s.drop_last());
    } else {
        lemma_one_hole(s.drop_last(), at);
    }
}

proof fn lemma_holes_joined(parts: Seq<Seq<char>>, sep: Seq<char>)
    requires
        holes(sep) == 0,
    ensures
        holes(joined(parts, sep)) == total_holes(parts),
    decreases parts.len(),
{
    if parts.len() == 1 {
        assert(parts.drop_last() =~= Seq::empty());
        assert(total_holes(parts.drop_last()) == 0);
        assert(parts.last() == parts[0]);
    } else if parts.len() > 1 {
        lemma_holes_joined(parts.drop_last(), sep);
        lemma_holes_concat(joined(parts.drop_last(), sep) + sep, parts.last());
        lemma_holes_concat(joined(parts.drop_last(), sep), sep);
    }
}

proof fn lemma_holes_marks(n: nat)
    ensures
        total_holes(marks(n)) == n,
    decreases n,
{
    if n > 0 {
        lemma_holes_marks((n - 1) as nat);
        assert(marks(n).drop_last() =~= marks((n - 1) as nat));
        reveal_strlit("?");
        lemma_one_hole("?"@, 0);
    }
}

/// The name of a field that may be filtered or sorted on has no hole.
proof fn lemma_fields_have_no_hole(field: Seq<char>)
    requires
        numeric_fields().contains(field) || text_fields().contains(field),
    ensures
        holes(field) == 0,
{
    reveal_strlit("market_cap");
    reveal_strlit("enterprise_value");
    reveal_strlit("shares_outstanding");
    reveal_strlit("free_float_pct");
    reveal_strlit("trailing_pe");
    reveal_strlit("forward_pe");
    reveal_strlit("price_to_book");
    reveal_strlit("dividend_yield");
    reveal_strlit("beta");
    reveal_strlit("return_on_equity");
    reveal_strlit("profit_margins");
    reveal_strlit("close");
    reveal_strlit("volume");
    reveal_strlit("rsi_14");
    reveal_strlit("sma_50");
    reveal_strlit("sma_200");
    reveal_strlit("sector");
    lemma_no_holes(field);
}

proof fn lemma_quoted(field: Seq<char>)
    requires
        numeric_fields().contains(field) || text_fields().contains(field),
    ensures
        holes(quoted(field)) == 0,
{
    lemma_fields_have_no_hole(field);
    reveal_strlit("\"");
    lemma_no_holes("\""@);
    lemma_holes_concat("\""@, field);
    lemma_holes_concat("\""@ + field, "\""@);
}

proof fn lemma_comparisons_have_no_hole(op: Seq<char>)
    requires
        compares(op),
    ensures
        holes(op) == 0,
{
    reveal_strlit("=");
    reveal_strlit("!=");
    reveal_strlit("<");
    reveal_strlit("<=");
    reveal_strlit(">");
    reveal_strlit(">=");
    lemma_no_holes(op);
}

proof fn lemma_cast_holes()
    ensures
        holes(" CAST(? AS DOUBLE)"@) == 1,
        holes(" BETWEEN CAST(? AS DOUBLE) AND CAST(? AS DOUBLE)"@) == 2,
{
    reveal_strlit(" CAST(? AS DOUBLE)");
    lemma_one_hole(" CAST(? AS DOUBLE)"@, 6);
    reveal_strlit(" BETWEEN CAST(? AS DOUBLE) AND CAST(? AS DOUBLE)");
    let s = " BETWEEN CAST(? AS DOUBLE) AND CAST(? AS DOUBLE)"@;
    assert(s =~= s.take(26) + s.skip(26));
    lemma_one_hole(s.take(26), 14);
    lemma_one_hole(s.skip(26), 10);
    lemma_holes_concat(s.take(26), s.skip(26));
}

proof fn lemma_term_holes(f: FilterView)
    requires
        term(f) is Ok,
    ensures
        holes(term(f)->Ok_0.clause) == term(f)->Ok_0.params.len(),
{
    let field = lower(f.field);
    let op = lower(f.op);
    let q = quoted(field);
    lemma_quoted(field);
    if numeric_fields().contains(field) {
        lemma_cast_holes();
        if compares(op) {
            lemma_comparisons_have_no_hole(op);
            reveal_strlit(" ");
            lemma_no_holes(" "@);
            lemma_holes_concat(q, " "@);
            lemma_holes_concat(q + " "@, op);
            lemma_holes_concat(q + " "@ + op, " CAST(? AS DOUBLE)"@);
        } else {
            lemma_holes_concat(q, " BETWEEN CAST(? AS DOUBLE) AND CAST(? AS DOUBLE)"@);
        }
    } else if op == "="@ {
        reveal_strlit(" = ?");
        lemma_one_hole(" = ?"@, 3);
        lemma_holes_concat(q, " = ?"@);
    } else {
        let n = f.value->Array_0.len();
        reveal_strlit(" IN (");
        reveal_strlit(")");
        reveal_strlit(", ");
        lemma_no_holes(" IN ("@);
        lemma_no_holes(")"@);
        lemma_no_holes(", "@);
        lemma_holes_marks(n);
        lemma_holes_joined(marks(n), ", "@);
        lemma_holes_concat(q, " IN ("@);
        lemma_holes_concat(q + " IN ("@, joined(marks(n), ", "@));
        lemma_holes_concat(q + " IN ("@ + joined(marks(n), ", "@), ")"@);
    }
}

proof fn lemma_terms_holes(f: Seq<FilterView>)
    requires
        terms(f) is Ok,
    ensures
        total_holes(clauses(terms(f)->Ok_0)) == params_of(terms(f)->Ok_0).len(),
    decreases f.len(),
{
    if f.len() > 0 {
        lemma_terms_holes(f.drop_last());
        lemma_term_holes(f.last());
        let t = terms(f)->Ok_0;
        let before = terms(f.drop_last())->Ok_0;
        assert(t.drop_last() =~= before);
        assert(clauses(t).drop_last() =~= clauses(before));
    }
}

/// Every value of an accepted screen has its hole, and every hole its value.
pub proof fn law_every_hole_is_bound(
    f: Seq<FilterView>,
    sort: Option<ScreenSort>,
    limit: Option<u32>,
)
    requires
        screen(f, sort, limit) is Ok,
    ensures
        holes(screen(f, sort, limit)->Ok_0.sql) == screen(f, sort, limit)->Ok_0.params.len(),
{
    let t = terms(f)->Ok_0;
    let n = decimal(limited(limit, 50));
    lemma_terms_holes(f);
    lemma_decimal_value(limited(limit, 50));
    assert(holes(n) == 0) by {
        assert forall|i: int| 0 <= i < n.len() implies n[i] != '?' by {
            assert(is_digit(n[i]));
        }
        lemma_no_holes(n);
    }
    reveal_strlit("SELECT * FROM latest");
    reveal_strlit(" WHERE ");
    reveal_strlit(" AND ");
    reveal_strlit(" LIMIT ");
    lemma_no_holes("SELECT * FROM latest"@);
    lemma_no_holes(" WHERE "@);
    lemma_no_holes(" AND "@);
    lemma_no_holes(" LIMIT "@);
    lemma_holes_joined(clauses(t), " AND "@);
    lemma_holes_concat(" WHERE "@, joined(clauses(t), " AND "@));
    assert(holes(order_sql(sort)) == 0) by {
        match sort {
            None => {
                reveal_strlit(" ORDER BY market_cap DESC NULLS LAST");
                lemma_no_holes(" ORDER BY market_cap DESC NULLS LAST"@);
            },
            Some(by) => {
                let q = quoted(lower(by.field@));
                let dir = if by.desc == Some(false) {
                    "ASC"@
                } else {
                    "DESC"@
                };
                lemma_quoted(lower(by.field@));
                reveal_strlit(" ORDER BY ");
                reveal_strlit(" ");
                reveal_strlit("ASC");
                reveal_strlit("DESC");
                reveal_strlit(" NULLS LAST");
                lemma_no_holes(" ORDER BY "@);
                lemma_no_holes(" "@);
                lemma_no_holes(dir);
                lemma_no_holes(" NULLS LAST"@);
                lemma_holes_concat(" ORDER BY "@, q);
                lemma_holes_concat(" ORDER BY "@ + q, " "@);
                lemma_holes_concat(" ORDER BY "@ + q + " "@, dir);
                lemma_holes_concat(" ORDER BY "@ + q + " "@ + dir, " NULLS LAST"@);
            },
        }
    }
    let head = "SELECT * FROM latest"@;
    let w = where_sql(t);
    let o = order_sql(sort);
    lemma_holes_concat(head, w);
    lemma_holes_concat(head + w, o);
    lemma_holes_concat(head + w + o, " LIMIT "@);
    lemma_holes_concat(head + w + o + " LIMIT "@, n);
    if t.len() == 0 {
        assert(clauses(t) =~= Seq::empty());
    }
}

/// True if two filters differ at most in what they compare with: the values are
/// lists of the same length, or both are no lists.
pub open spec fn same_shape(a: FilterView, b: FilterView) -> bool {
    &&& a.field == b.field
    &&& a.op == b.op
    &&& match (a.value, b.value) {
        (JsonView::Array(x), JsonView::Array(y)) => x.len() == y.len(),
        (JsonView::Array(_), _) => false,
        (_, JsonView::Array(_)) => false,
        _ => true,
    }
}

proof fn lemma_same_clauses(f: Seq<FilterView>, g: Seq<FilterView>)
    requires
        f.len() == g.len(),
        forall|i: int| 0 <= i < f.len() ==> same_shape(#[trigger] f[i], g[i]),
        terms(f) is Ok,
        terms(g) is Ok,
    ensures
        clauses(terms(f)->Ok_0) == clauses(terms(g)->Ok_0),
    decreases f.len(),
{
    if f.len() > 0 {
        lemma_same_clauses(f.drop_last(), g.drop_last());
        assert(same_shape(f[f.len() - 1], g[f.len() - 1]));
        let a = terms(f)->Ok_0;
        let b = terms(g)->Ok_0;
        assert(a.drop_last() =~= terms(f.drop_last())->Ok_0);
        assert(b.drop_last() =~= terms(g.drop_last())->Ok_0);
        assert(a.last().clause == b.last().clause);
        assert(clauses(a) =~= clauses(a.drop_last()).push(a.last().clause));
        assert(clauses(b) =~= clauses(b.drop_last()).push(b.last().clause));
    } else {
        assert(clauses(terms(f)->Ok_0) =~= clauses(terms(g)->Ok_0));
    }
}

/// No value is ever written into the statement: two accepted screens that differ
/// only in the values they compare with have the same statement.
pub proof fn law_values_are_never_written(
    f: Seq<FilterView>,
    g: Seq<FilterView>,
    sort: Option<ScreenSort>,
    limit: Option<u32>,
)
    requires
        f.len() == g.len(),
        forall|i: int| 0 <= i < f.len() ==> same_shape(#[trigger] f[i], g[i]),
        screen(f, sort, limit) is Ok,
        screen(g, sort, limit) is Ok,
    ensures
        screen(f, sort, limit)->Ok_0.sql == screen(g, sort, limit)->Ok_0.sql,
{
    lemma_same_clauses(f, g);
    assert(clauses(terms(f)->Ok_0).len() == terms(f)->Ok_0.len());
    assert(clauses(terms(g)->Ok_0).len() == terms(g)->Ok_0.len());
}

/// Every filter of an accepted screen is on a field of the catalog, with an operator
/// that the field permits.
pub proof fn law_accepted_filters_are_permitted(
    f: Seq<FilterView>,
    sort: Option<ScreenSort>,
    limit: Option<u32>,
    i: int,
)
    requires
        screen(f, sort, limit) is Ok,
        0 <= i < f.len(),
    ensures
        ({
            let field = lower(f[i].field);
            let op = lower(f[i].op);
            ||| numeric_fields().contains(field) && (compares(op) || op == "between"@)
            ||| text_fields().contains(field) && (op == "="@ || op == "in"@)
        }),
{
    lemma_terms_ok(f, i);
}

proof fn lemma_terms_ok(f: Seq<FilterView>, i: int)
    requires
        terms(f) is Ok,
        0 <= i < f.len(),
    ensures
        term(f[i]) is Ok,
    decreases f.len(),
{
    if i < f.len() - 1 {
        lemma_terms_ok(f.drop_last(), i);
    }
}

/// A screen with a filter on a field that is not in the catalog is refused.
pub proof fn law_foreign_fields_are_refused(
    f: Seq<FilterView>,
    sort: Option<ScreenSort>,
    limit: Option<u32>,
    i: int,
)
    requires
        0 <= i < f.len(),
        !sortable(f[i].field),
    ensures
        screen(f, sort, limit) is Err,
{
    if terms(f) is Ok {
        lemma_terms_ok(f, i);
    }
}

// ---- laws of the screen ----

/// Rows come in descending order unless the caller asks for the opposite: leaving the
/// direction out is the same as asking for descending, and ascending is another order.
/// Rows without a value come last either way, and without a sort the largest companies
/// come first.
pub proof fn law_screens_are_sorted_descending_by_default(
    field: String,
    f: Seq<FilterView>,
    limit: Option<u32>,
)
    ensures
        order_sql(None) == " ORDER BY market_cap DESC NULLS LAST"@,
        order_sql(Some(ScreenSort { field, desc: None })) == " ORDER BY \""@ + lower(field@)
            + "\" DESC NULLS LAST"@,
        order_sql(Some(ScreenSort { field, desc: Some(true) })) == " ORDER BY \""@ + lower(field@)
            + "\" DESC NULLS LAST"@,
        order_sql(Some(ScreenSort { field, desc: Some(false) })) == " ORDER BY \""@ + lower(field@)
            + "\" ASC NULLS LAST"@,
        screen(f, Some(ScreenSort { field, desc: Some(true) }), limit) == screen(
            f,
            Some(ScreenSort { field, desc: None }),
            limit,
        ),
        screen(f, Some(ScreenSort { field, desc: Some(true) }), limit) is Ok ==> screen(
            f,
            Some(ScreenSort { field, desc: Some(true) }),
            limit,
        ) != screen(f, Some(ScreenSort { field, desc: Some(false) }), limit),
{
    reveal_strlit(" ORDER BY ");
    reveal_strlit(" ORDER BY \"");
    reveal_strlit("\"");
    reveal_strlit(" ");
    reveal_strlit("ASC");
    reveal_strlit("DESC");
    reveal_strlit(" NULLS LAST");
    reveal_strlit("\" DESC NULLS LAST");
    reveal_strlit("\" ASC NULLS LAST");
    let l = lower(field@);
    let up = Some(ScreenSort { field, desc: Some(false) });
    let down = Some(ScreenSort { field, desc: Some(true) });
    assert(order_sql(down) =~= " ORDER BY \""@ + l + "\" DESC NULLS LAST"@);
    assert(order_sql(Some(ScreenSort { field, desc: None })) =~= " ORDER BY \""@ + l
        + "\" DESC NULLS LAST"@);
    assert(order_sql(up) =~= " ORDER BY \""@ + l + "\" ASC NULLS LAST"@);
    if screen(f, down, limit) is Ok {
        let a = screen(f, down, limit)->Ok_0.sql;
        let b = screen(f, up, limit)->Ok_0.sql;
        assert(a.len() == b.len() + 1);
    }
}

/// A filter on a numeric field compares the field with a bound number, by the operator
/// that the caller names, or asks whether it lies between two bound numbers.
pub proof fn law_numeric_filters_compare_with_numbers(f: FilterView)
    requires
        numeric_fields().contains(lower(f.field)),
    ensures
        ({
            let field = "\""@ + lower(f.field) + "\""@;
            let op = lower(f.op);
            let known = op == "="@ || op == "!="@ || op == "<"@ || op == "<="@ || op == ">"@ || op
                == ">="@;
            &&& known && f.value is Number ==> term(f) == Ok::<_, Seq<char>>(
                TermView {
                    clause: field + " "@ + op + " CAST(? AS DOUBLE)"@,
                    params: seq![f.value->Number_0],
                },
            )
            &&& known && f.value is Text && is_number_text(f.value->Text_0) ==> term(f) == Ok::<
                _,
                Seq<char>,
            >(
                TermView {
                    clause: field + " "@ + op + " CAST(? AS DOUBLE)"@,
                    params: seq![f.value->Text_0],
                },
            )
            &&& known && f.value is Text && !is_number_text(f.value->Text_0) ==> term(f) == Err::<
                TermView,
                _,
            >("expected a number"@)
            &&& known && !(f.value is Text) && !(f.value is Number) ==> term(f) == Err::<
                TermView,
                _,
            >("expected a number"@)
            &&& op == "between"@ && f.value is Array && f.value->Array_0.len() == 2
                && f.value->Array_0[0] is Number && f.value->Array_0[1] is Number ==> term(f)
                == Ok::<_, Seq<char>>(
                TermView {
                    clause: field + " BETWEEN CAST(? AS DOUBLE) AND CAST(? AS DOUBLE)"@,
                    params: seq![f.value->Array_0[0]->Number_0, f.value->Array_0[1]->Number_0],
                },
            )
            &&& op == "between"@ && !(f.value is Array && f.value->Array_0.len() == 2) ==> term(f)
                == Err::<TermView, _>("between needs a [low, high] array"@)
            &&& !known && op != "between"@ ==> term(f) == Err::<TermView, _>(
                "operator '"@ + op + "' not allowed on numeric field "@ + lower(f.field),
            )
        }),
{
    lemma_between_is_no_comparison();
}

proof fn lemma_between_is_no_comparison()
    ensures
        !compares("between"@),
        !compares("in"@),
        "in"@ != "="@,
{
    reveal_strlit("between");
    reveal_strlit("in");
    reveal_strlit("=");
    reveal_strlit("!=");
    reveal_strlit("<");
    reveal_strlit("<=");
    reveal_strlit(">");
    reveal_strlit(">=");
    assert("between"@.len() == 7 && "in"@.len() == 2 && "="@.len() == 1);
    assert("in"@[0] == 'i' && "!="@[0] == '!' && "<="@[0] == '<' && ">="@[0] == '>');
    assert("<"@.len() == 1 && ">"@.len() == 1 && "!="@.len() == 2 && "<="@.len() == 2
        && ">="@.len() == 2);
}

/// A filter on the sector asks for one bound text, or for one of several, with a hole for
/// each of them.
pub proof fn law_sector_filters_compare_with_texts(f: FilterView)
    requires
        lower(f.field) == "sector"@,
    ensures
        ({
            let op = lower(f.op);
            &&& op == "="@ && f.value is Text ==> term(f) == Ok::<_, Seq<char>>(
                TermView { clause: "\"sector\" = ?"@, params: seq![f.value->Text_0] },
            )
            &&& op == "="@ && !(f.value is Text) ==> term(f) == Err::<TermView, _>(
                "sector = needs a string"@,
            )
            &&& op == "in"@ && f.value is Array && f.value->Array_0.len() > 0 && (forall|i: int|
                0 <= i < f.value->Array_0.len() ==> (#[trigger] f.value->Array_0[i]) is Text)
                ==> term(f) is Ok && term(f)->Ok_0.clause == "\"sector\" IN ("@ + joined(
                Seq::new(f.value->Array_0.len(), |i: int| "?"@),
                ", "@,
            ) + ")"@ && term(f)->Ok_0.params.len() == f.value->Array_0.len() && (forall|i: int|
                0 <= i < f.value->Array_0.len() ==> #[trigger] term(f)->Ok_0.params[i]
                    == f.value->Array_0[i]->Text_0)
            &&& op == "in"@ && !(f.value is Array && f.value->Array_0.len() > 0) ==> term(f)
                == Err::<TermView, _>("in needs a non-empty array"@)
            &&& op == "in"@ && f.value is Array && f.value->Array_0.len() > 0 && (exists|i: int|
                0 <= i < f.value->Array_0.len() && !((#[trigger] f.value->Array_0[i]) is Text))
                ==> term(f) == Err::<TermView, _>("in values must be strings"@)
            &&& op != "="@ && op != "in"@ ==> term(f) == Err::<TermView, _>(
                "operator '"@ + op + "' not allowed on field sector"@,
            )
        }),
{
    law_seventeen_fields_are_screenable("sector"@);
    lemma_between_is_no_comparison();
    reveal_strlit("sector");
    reveal_strlit("market_cap");
    reveal_strlit("enterprise_value");
    reveal_strlit("shares_outstanding");
    reveal_strlit("free_float_pct");
    reveal_strlit("trailing_pe");
    reveal_strlit("forward_pe");
    reveal_strlit("price_to_book");
    reveal_strlit("dividend_yield");
    reveal_strlit("beta");
    reveal_strlit("return_on_equity");
    reveal_strlit("profit_margins");
    reveal_strlit("close");
    reveal_strlit("volume");
    reveal_strlit("rsi_14");
    reveal_strlit("sma_50");
    reveal_strlit("sma_200");
    assert("sector"@.len() == 6 && "sector"@[1] == 'e');
    assert("volume"@[1] == 'o' && "rsi_14"@[1] == 's' && "sma_50"@[1] == 'm');
    assert(!numeric_fields().contains("sector"@));
    reveal_strlit("\"");
    reveal_strlit(" = ?");
    reveal_strlit("\"sector\" = ?");
    reveal_strlit(" IN (");
    reveal_strlit("\"sector\" IN (");
    reveal_strlit("' not allowed on field ");
    reveal_strlit("' not allowed on field sector");
    let q = quoted("sector"@);
    assert(q + " = ?"@ =~= "\"sector\" = ?"@);
    assert(q + " IN ("@ =~= "\"sector\" IN ("@);
    let op = lower(f.op);
    assert("operator '"@ + op + "' not allowed on field "@ + "sector"@ =~= "operator '"@ + op
        + "' not allowed on field sector"@);
    if f.value is Array {
        let items = f.value->Array_0;
        assert(marks(items.len()) =~= Seq::new(items.len(), |i: int| "?"@));
    }
}

/// A field that is neither a number nor the sector is refused, by the name that the
/// caller used; so is a sort by such a field.
pub proof fn law_other_fields_are_named_in_the_refusal(
    f: FilterView,
    field: String,
    desc: Option<bool>,
    limit: Option<u32>,
)
    ensures
        !numeric_fields().contains(lower(f.field)) && lower(f.field) != "sector"@ ==> term(f)
            == Err::<TermView, _>("not a screenable field: "@ + f.field),
        !numeric_fields().contains(lower(field@)) && lower(field@) != "sector"@ ==> screen(
            Seq::empty(),
            Some(ScreenSort { field, desc }),
            limit,
        ) == Err::<PlanView, _>("not a sortable field: "@ + field@),
        numeric_fields().contains(lower(field@)) || lower(field@) == "sector"@ ==> screen(
            Seq::empty(),
            Some(ScreenSort { field, desc }),
            limit,
        ) is Ok,
{
    law_seventeen_fields_are_screenable(lower(f.field));
    law_seventeen_fields_are_screenable(lower(field@));
}

/// The end of a screen: its order, then its number of rows, fifty unless the caller wants
/// another number.
pub open spec fn screen_end(sort: Option<ScreenSort>, limit: Option<u32>) -> Seq<char> {
    order_sql(sort) + " LIMIT "@ + decimal(limited(limit, 50))
}

/// A screen without a filter reads all of the snapshot view.
pub proof fn law_a_screen_reads_the_snapshot(sort: Option<ScreenSort>, limit: Option<u32>)
    requires
        sort is Some ==> numeric_fields().contains(lower(sort->0.field@)) || lower(
            sort->0.field@,
        ) == "sector"@,
    ensures
        screen(Seq::empty(), sort, limit) is Ok,
        screen(Seq::empty(), sort, limit)->Ok_0.sql == "SELECT * FROM latest"@ + screen_end(
            sort,
            limit,
        ),
        screen(Seq::empty(), sort, limit)->Ok_0.params.len() == 0,
{
    if sort is Some {
        law_seventeen_fields_are_screenable(lower(sort->0.field@));
    }
    let none = screen(Seq::empty(), sort, limit);
    assert(none->Ok_0.sql =~= "SELECT * FROM latest"@ + screen_end(sort, limit));
}

/// A screen with one filter reads what the filter admits, with its values bound.
pub proof fn law_one_filter_narrows_the_snapshot(
    g: FilterView,
    sort: Option<ScreenSort>,
    limit: Option<u32>,
)
    requires
        sort is Some ==> numeric_fields().contains(lower(sort->0.field@)) || lower(
            sort->0.field@,
        ) == "sector"@,
    ensures
        term(g) is Ok ==> ({
            let one = screen(seq![g], sort, limit);
            &&& one is Ok
            &&& one->Ok_0.sql == "SELECT * FROM latest WHERE "@ + term(g)->Ok_0.clause
                + screen_end(sort, limit)
            &&& one->Ok_0.params == term(g)->Ok_0.params
        }),
        term(g) is Err ==> screen(seq![g], sort, limit) == Err::<PlanView, _>(term(g)->Err_0),
{
    if sort is Some {
        law_seventeen_fields_are_screenable(lower(sort->0.field@));
    }
    reveal_with_fuel(terms, 2);
    let one = seq![g];
    assert(one.drop_last() =~= Seq::empty());
    assert(one.last() == g);
    if term(g) is Ok {
        let t = terms(one)->Ok_0;
        let x = term(g)->Ok_0;
        assert(t =~= seq![x]);
        lemma_one_term(x);
        reveal_strlit("SELECT * FROM latest");
        reveal_strlit(" WHERE ");
        reveal_strlit("SELECT * FROM latest WHERE ");
        assert("SELECT * FROM latest"@ + " WHERE "@ =~= "SELECT * FROM latest WHERE "@);
        assert(screen(one, sort, limit)->Ok_0.sql =~= ("SELECT * FROM latest"@ + " WHERE "@)
            + x.clause + screen_end(sort, limit));
    }
}

proof fn lemma_one_term(x: TermView)
    ensures
        where_sql(seq![x]) == " WHERE "@ + x.clause,
        params_of(seq![x]) == x.params,
{
    let t = seq![x];
    reveal_with_fuel(params_of, 2);
    reveal_with_fuel(joined, 2);
    assert(clauses(t) =~= seq![x.clause]);
    assert(t.drop_last() =~= Seq::empty());
    assert(params_of(t) =~= x.params);
}

/// Each further filter narrows a screen, with its values bound behind the others'; the
/// first filter that is refused is told.
#[verifier::rlimit(40)]
pub proof fn law_every_filter_narrows_the_snapshot(
    f: Seq<FilterView>,
    g: FilterView,
    sort: Option<ScreenSort>,
    limit: Option<u32>,
)
    requires
        sort is Some ==> numeric_fields().contains(lower(sort->0.field@)) || lower(
            sort->0.field@,
        ) == "sector"@,
        f.len() > 0,
    ensures
        ({
            let before = screen(f, sort, limit);
            let more = screen(f.push(g), sort, limit);
            &&& before is Ok && term(g) is Ok ==> more is Ok && more->Ok_0.params
                == before->Ok_0.params + term(g)->Ok_0.params
            &&& before is Ok && term(g) is Ok ==> (exists|w: Seq<char>|
                before->Ok_0.sql == w + screen_end(sort, limit) && more->Ok_0.sql == #[trigger] (w
                    + " AND "@ + term(g)->Ok_0.clause) + screen_end(sort, limit))
            &&& before is Err ==> more == before
            &&& before is Ok && term(g) is Err ==> more == Err::<PlanView, _>(term(g)->Err_0)
        }),
{
    if sort is Some {
        law_seventeen_fields_are_screenable(lower(sort->0.field@));
    }
    assert(f.push(g).drop_last() =~= f);
    assert(f.push(g).last() == g);
    if terms(f) is Ok && term(g) is Ok {
        let t = terms(f)->Ok_0;
        let x = term(g)->Ok_0;
        assert(terms(f.push(g))->Ok_0 == t.push(x));
        lemma_terms_len(f);
        lemma_more_terms(t, x);
        let w = "SELECT * FROM latest"@ + where_sql(t);
        let end = screen_end(sort, limit);
        assert(screen(f, sort, limit)->Ok_0.sql =~= w + end);
        assert(screen(f.push(g), sort, limit)->Ok_0.sql =~= (w + " AND "@ + x.clause) + end);
    }
}

proof fn lemma_more_terms(t: Seq<TermView>, x: TermView)
    requires
        t.len() > 0,
    ensures
        where_sql(t.push(x)) == where_sql(t) + " AND "@ + x.clause,
        params_of(t.push(x)) == params_of(t) + x.params,
{
    let u = t.push(x);
    let c = clauses(t);
    assert(u.drop_last() =~= t);
    assert(clauses(u) =~= c.push(x.clause));
    assert(c.push(x.clause).drop_last() =~= c);
    assert(where_sql(u) =~= where_sql(t) + " AND "@ + x.clause);
}

proof fn lemma_terms_len(f: Seq<FilterView>)
    requires
        terms(f) is Ok,
    ensures
        terms(f)->Ok_0.len() == f.len(),
    decreases f.len(),
{
    if f.len() > 0 {
        lemma_terms_len(f.drop_last());
    }
}

/// A number is bound by the text of its double, alone or in a list; a text is bound as
/// the caller wrote it, and what is no number stays what it is.
pub proof fn law_numbers_are_bound_at_double_precision(t: Seq<char>, items: Seq<JsonView>, i: int)
    ensures
        double_text(t) is Some ==> bound_value(JsonView::Number(t)) == JsonView::Number(
            double_text(t)->0,
        ),
        double_text(t) is None ==> bound_value(JsonView::Number(t)) is Null,
        nearest_double(t) is Some ==> double_text(t) == double_shown(nearest_double(t)->0),
        nearest_double(t) is None ==> double_text(t) is None,
        bound_value(JsonView::Text(t)) == JsonView::Text(t),
        bound_value(JsonView::Null) == JsonView::Null,
        bound_value(JsonView::Array(items)) is Array,
        bound_value(JsonView::Array(items))->Array_0.len() == items.len(),
        0 <= i < items.len() && items[i] is Text ==> bound_value(JsonView::Array(items))->Array_0[i]
            == items[i],
        0 <= i < items.len() && items[i] is Number && double_text(items[i]->Number_0) is Some
            ==> bound_value(JsonView::Array(items))->Array_0[i] == JsonView::Number(
            double_text(items[i]->Number_0)->0,
        ),
{
}

/// Binding changes the values of filters only: each keeps its field, its operator and its
/// place.
pub proof fn law_binding_keeps_the_filters(f: Seq<FilterView>, i: int)
    requires
        0 <= i < f.len(),
    ensures
        bound_filters(f).len() == f.len(),
        bound_filters(f)[i].field == f[i].field,
        bound_filters(f)[i].op == f[i].op,
        bound_filters(f)[i].value == bound_value(f[i].value),
{
}

/// The filters are judged before the sort: a filter that is refused is told whatever the
/// sort, and a sort that is refused only where every filter is good.
pub proof fn law_filters_are_judged_before_the_sort(
    f: Seq<FilterView>,
    sort: ScreenSort,
    limit: Option<u32>,
)
    ensures
        screen(f, None, limit) is Err ==> screen(f, Some(sort), limit) == screen(f, None, limit),
        screen(f, None, limit) is Ok && !numeric_fields().contains(lower(sort.field@)) && lower(
            sort.field@,
        ) != "sector"@ ==> screen(f, Some(sort), limit) == Err::<PlanView, _>(
            "not a sortable field: "@ + sort.field@,
        ),
        screen(f, None, limit) is Ok && (numeric_fields().contains(lower(sort.field@)) || lower(
            sort.field@,
        ) == "sector"@) ==> screen(f, Some(sort), limit) is Ok && screen(
            f,
            Some(sort),
            limit,
        )->Ok_0.params == screen(f, None, limit)->Ok_0.params,
{
    law_seventeen_fields_are_screenable(lower(sort.field@));
}

/// What a screen refuses is the caller's fault, and told as such.
pub proof fn law_screens_are_refused_to_the_caller(m: Seq<char>, plan: PlanView)
    ensures
        refusal(Err::<PlanView, _>(m)) == Err::<PlanView, _>(ToolErrorView::InvalidParams(m)),
        refusal(Ok::<PlanView, _>(plan)) == Ok::<_, ToolErrorView>(plan),
{
}

/// The ends of a range are read as the number of a comparison is: a range of two values
/// binds what each of them binds alone, the low end first, and is refused exactly if one
/// of them is no number.
pub proof fn law_ranges_bind_both_ends(field: Seq<char>, a: JsonView, b: JsonView)
    requires
        numeric_fields().contains(lower(field)),
    ensures
        ({
            let low = term(FilterView { field, op: "="@, value: a });
            let high = term(FilterView { field, op: "="@, value: b });
            let both = term(
                FilterView { field, op: "between"@, value: JsonView::Array(seq![a, b]) },
            );
            &&& low is Ok && high is Ok ==> both is Ok && both->Ok_0.params == low->Ok_0.params
                + high->Ok_0.params && both->Ok_0.clause == "\""@ + lower(field)
                + "\" BETWEEN CAST(? AS DOUBLE) AND CAST(? AS DOUBLE)"@
            &&& low is Err || high is Err ==> both == Err::<TermView, _>("expected a number"@)
        }),
{
    lemma_between_is_no_comparison();
    reveal_strlit("between");
    reveal_strlit("=");
    assert(lower("between"@) =~= "between"@);
    assert(lower("="@) =~= "="@);
    reveal_strlit("\"");
    reveal_strlit(" BETWEEN CAST(? AS DOUBLE) AND CAST(? AS DOUBLE)");
    reveal_strlit("\" BETWEEN CAST(? AS DOUBLE) AND CAST(? AS DOUBLE)");
    let low = term(FilterView { field, op: "="@, value: a });
    let high = term(FilterView { field, op: "="@, value: b });
    let both = term(FilterView { field, op: "between"@, value: JsonView::Array(seq![a, b]) });
    assert(seq![a, b][0] == a && seq![a, b][1] == b);
    if low is Ok && high is Ok {
        assert(both->Ok_0.params =~= low->Ok_0.params + high->Ok_0.params);
        assert(both->Ok_0.clause =~= "\""@ + lower(field)
            + "\" BETWEEN CAST(? AS DOUBLE) AND CAST(? AS DOUBLE)"@);
    }
}

/// A filter is its field, its operator and its value, and a term its condition and the
/// values that it binds, in their order.
pub proof fn law_filters_are_their_fields(f: ScreenFilter, t: Term, i: int)
    ensures
        f@.field == f.field@ && f@.op == f.op@ && f@.value == f.value@,
        t@.clause == t.clause@ && t@.params.len() == t.params@.len(),
        0 <= i < t.params@.len() ==> t@.params[i] == t.params@[i]@,
{
}

} // verus!
