//! The query path: how an untrusted query is cleaned, probed, guarded, bounded,
//! and how its rows become an answer.
//!
//! A query runs in three steps. [`prepare_query`] cleans the text and fixes the
//! row cap. The engine's parser answers the probe of [`parse_probe`], and
//! [`release`] hands out the statement to run only if the guard passes. The rows
//! that come back go through [`collect_json`] and [`finish_query`].

use vstd::prelude::*;
use vstd::string::*;
use vstd::utf8::encode_utf8;

use crate::catalog::MAX_ROWS;
use crate::errors::EngineError;
use crate::errors::EngineErrorView;
use crate::json::json_document;
use crate::json::json_views;
use crate::json::parse_json;
use crate::json::Json;
use crate::json::JsonView;
use crate::text::all_white;
use crate::text::decimal;
use crate::text::is_trim;
use crate::text::is_white;
use crate::text::law_stripping_takes_the_tail;
use crate::text::law_trimming_takes_the_white_space_around;
use crate::text::opt_text;
use crate::text::push_decimal;
use crate::text::repeated;
use crate::text::strip_tail;
use crate::text::trim;
use crate::text::trim_end_char;
use crate::text::trimmed;
use crate::vet::judged;
use crate::vet::validate;
use crate::vet::vetted;

verus! {

/// A query ready to be probed.
#[derive(Debug)]
pub struct PreparedQuery {
    /// The cleaned query text, never empty.
    pub sql: String,
    /// The most rows to return.
    pub cap: u32,
}

/// Result of a `run_query` call.
#[derive(Debug)]
pub struct QueryOutput {
    pub rows: Vec<Json>,
    /// True if the row cap was hit and results were cut.
    pub truncated: bool,
}

// ---- preparing ----

/// A query text without surrounding white space and closing semicolons.
pub open spec fn cleaned(sql: Seq<char>) -> Seq<char> {
    trimmed(strip_tail(trimmed(sql), ';'))
}

/// The row cap for a requested limit: at most the server's, at least one.
pub open spec fn cap_for(limit: Option<usize>) -> int {
    match limit {
        None => MAX_ROWS as int,
        Some(n) => if n < 1 {
            1
        } else if n <= MAX_ROWS {
            n as int
        } else {
            MAX_ROWS as int
        },
    }
}

/// The row cap for a requested limit.
pub fn row_cap(limit: Option<usize>) -> (r: u32)
    ensures
        r == cap_for(limit),
        1 <= r <= MAX_ROWS,
{
    match limit {
        None => MAX_ROWS,
        Some(n) => if n < 1 {
            1
        } else if n <= MAX_ROWS as usize {
            n as u32
        } else {
            MAX_ROWS
        },
    }
}

/// Cleans a query and fixes its row cap; an empty query is refused.
pub fn prepare_query(sql: &str, limit: Option<usize>) -> (r: Result<PreparedQuery, EngineError>)
    ensures
        match r {
            Ok(q) => {
                &&& q.sql@ == cleaned(sql@)
                &&& q.sql@.len() > 0
                &&& q.cap == cap_for(limit)
            },
            Err(e) => e@ == EngineErrorView::EmptyQuery && cleaned(sql@).len() == 0,
        },
{
    let a = trim(sql);
    let b = trim_end_char(a.as_str(), ';');
    let sql = trim(b.as_str());
    if sql.as_str().is_empty() {
        Err(EngineError::EmptyQuery)
    } else {
        Ok(PreparedQuery { sql, cap: row_cap(limit) })
    }
}

// ---- probing ----

/// `s` with every single quote doubled.
pub open spec fn doubled(s: Seq<char>) -> Seq<char>
    decreases s.len(),
{
    if s.len() == 0 {
        Seq::empty()
    } else if s[0] == '\'' {
        seq!['\'', '\''] + doubled(s.drop_first())
    } else {
        seq![s[0]] + doubled(s.drop_first())
    }
}

/// The statement that has the engine's parser serialize a query.
pub open spec fn probe(sql: Seq<char>) -> Seq<char> {
    "SELECT json_serialize_sql('"@ + doubled(sql) + "')"@
}

/// The statement that has the engine's parser serialize `sql`. The parser
/// wants a literal, so the query stands in one, with its quotes doubled; it is
/// parsed there and never executed.
pub fn parse_probe(sql: &str) -> (r: String)
    ensures
        r@ == probe(sql@),
{
    let mut d = String::new();
    assert(sql@.skip(0) =~= sql@);
    assert(d@ + doubled(sql@) =~= doubled(sql@));
    for c in it: sql.chars()
        invariant
            it.seq() == sql@,
            doubled(sql@) == d@ + doubled(sql@.skip(it.index())),
    {
        let ghost k = it.index();
        let ghost was = d@;
        if c == '\'' {
            d.push('\'');
        }
        d.push(c);
        assert(sql@.skip(k).drop_first() =~= sql@.skip(k + 1));
        assert(sql@.skip(k)[0] == c);
        assert(was + doubled(sql@.skip(k)) =~= d@ + doubled(sql@.skip(k + 1)));
    }
    assert(sql@.skip(sql@.len() as int) =~= Seq::empty());
    assert(d@ =~= doubled(sql@));
    let mut s = "SELECT json_serialize_sql('".to_string();
    s.append(d.as_str());
    s.append("')");
    s
}

/// What a quoted literal holds, and what follows it, given the text after the
/// opening quote: two quotes in a row stand for one, a single one closes.
pub open spec fn literal(t: Seq<char>) -> Option<(Seq<char>, Seq<char>)>
    decreases t.len(),
{
    if t.len() == 0 {
        None
    } else if t[0] != '\'' {
        match literal(t.drop_first()) {
            Some((c, rest)) => Some((seq![t[0]] + c, rest)),
            None => None,
        }
    } else if t.len() > 1 && t[1] == '\'' {
        match literal(t.skip(2)) {
            Some((c, rest)) => Some((seq!['\''] + c, rest)),
            None => None,
        }
    } else {
        Some((Seq::empty(), t.drop_first()))
    }
}

/// A query cannot break out of the literal that the probe puts it in: whatever
/// it holds, the literal reads back as the query, and ends where it was closed.
pub proof fn law_probe_literal_holds_the_query(sql: Seq<char>, rest: Seq<char>)
    requires
        rest.len() > 0 ==> rest[0] != '\'',
    ensures
        literal(doubled(sql) + seq!['\''] + rest) == Some((sql, rest)),
    decreases sql.len(),
{
    let t = doubled(sql) + seq!['\''] + rest;
    if sql.len() == 0 {
        assert(t =~= seq!['\''] + rest);
        assert(t.drop_first() =~= rest);
        assert(sql =~= Seq::empty());
        if rest.len() > 0 {
            assert(t[1] == rest[0]);
        }
    } else {
        let tail = sql.drop_first();
        law_probe_literal_holds_the_query(tail, rest);
        let u = doubled(tail) + seq!['\''] + rest;
        assert(sql =~= seq![sql[0]] + tail);
        if sql[0] == '\'' {
            assert(t =~= seq!['\'', '\''] + u);
            assert(t.skip(2) =~= u);
        } else {
            assert(t =~= seq![sql[0]] + u);
            assert(t.drop_first() =~= u);
        }
    }
}

// ---- running ----

/// The statement that runs a guarded query and turns each row into JSON. It asks
/// for one row more than the cap, so that a cut can be told.
pub open spec fn bounded(sql: Seq<char>, cap: nat) -> Seq<char> {
    "SELECT to_json(t)::VARCHAR AS j FROM ("@ + sql + ") AS t LIMIT "@ + decimal(cap + 1)
}

/// The statement that runs a trusted query and turns each row into JSON.
pub open spec fn wrapped(sql: Seq<char>) -> Seq<char> {
    "SELECT to_json(t)::VARCHAR AS j FROM ("@ + sql + ") AS t"@
}

/// The statement that runs a trusted query; its parameters are bound.
pub fn params_sql(sql: &str) -> (r: String)
    ensures
        r@ == wrapped(sql@),
{
    let mut s = "SELECT to_json(t)::VARCHAR AS j FROM (".to_string();
    s.append(sql);
    s.append(") AS t");
    s
}

/// The statement that runs a guarded query with a row cap.
pub fn bounded_sql(sql: &str, cap: u32) -> (r: String)
    ensures
        r@ == bounded(sql@, cap as nat),
{
    let mut s = "SELECT to_json(t)::VARCHAR AS j FROM (".to_string();
    s.append(sql);
    s.append(") AS t LIMIT ");
    push_decimal(&mut s, cap as u64 + 1);
    s
}

/// `r` is what is handed out for the query `sql`, once the engine's parser has answered.
pub open spec fn released(
    sql: Seq<char>,
    cap: nat,
    answer: Option<Seq<u8>>,
    r: Result<Seq<char>, EngineErrorView>,
) -> bool {
    match r {
        Ok(s) => judged(answer, Ok(())) && s == bounded(sql, cap),
        Err(e) => judged(answer, Err(e)),
    }
}

/// Hands out the statement to run for a prepared query, if what the parser
/// answered to its probe passes the guard.
pub fn release(q: &PreparedQuery, answer: Option<&str>) -> (r: Result<String, EngineError>)
    ensures
        released(
            q.sql@,
            q.cap as nat,
            match answer {
                None => None,
                Some(text) => Some(text.spec_bytes()),
            },
            match r {
                Ok(s) => Ok(s@),
                Err(e) => Err(e@),
            },
        ),
{
    match validate(answer) {
        Err(e) => Err(e),
        Ok(_) => Ok(bounded_sql(q.sql.as_str(), q.cap)),
    }
}

// ---- answering ----

/// The documents that some result rows write, or the first failure among them:
/// a row that could not be read (`None`) or one that is not JSON.
pub open spec fn collected(rows: Seq<Option<Seq<char>>>) -> Result<Seq<JsonView>, EngineErrorView>
    decreases rows.len(),
{
    if rows.len() == 0 {
        Ok(Seq::empty())
    } else {
        match collected(rows.drop_last()) {
            Err(e) => Err(e),
            Ok(done) => match rows.last() {
                None => Err(EngineErrorView::ReadRow),
                Some(t) => match json_document(encode_utf8(t)) {
                    None => Err(EngineErrorView::ParseRow),
                    Some(j) => Ok(done.push(j)),
                },
            },
        }
    }
}

/// The texts of some result rows.
pub open spec fn row_texts(rows: Seq<Option<String>>) -> Seq<Option<Seq<char>>> {
    rows.map_values(|o: Option<String>| opt_text(o))
}

proof fn lemma_collected_err(rows: Seq<Option<Seq<char>>>, i: int)
    requires
        0 <= i <= rows.len(),
        collected(rows.take(i)) is Err,
    ensures
        collected(rows) == collected(rows.take(i)),
    decreases rows.len() - i,
{
    if i == rows.len() {
        assert(rows.take(i) =~= rows);
    } else {
        assert(rows.take(i + 1).drop_last() =~= rows.take(i));
        lemma_collected_err(rows, i + 1);
    }
}

/// Reads every result row as JSON, in order; the first failure ends it.
pub fn collect_json(rows: &Vec<Option<String>>) -> (r: Result<Vec<Json>, EngineError>)
    ensures
        match r {
            Ok(v) => collected(row_texts(rows@)) == Ok::<_, EngineErrorView>(json_views(v@)),
            Err(e) => collected(row_texts(rows@)) == Err::<Seq<JsonView>, _>(e@),
        },
{
    let ghost t = row_texts(rows@);
    let mut out: Vec<Json> = Vec::new();
    let mut i: usize = 0;
    assert(t.take(0) =~= Seq::empty());
    assert(json_views(out@) =~= Seq::empty());
    while i < rows.len()
        invariant
            i <= rows@.len(),
            t == row_texts(rows@),
            collected(t.take(i as int)) == Ok::<_, EngineErrorView>(json_views(out@)),
        decreases rows@.len() - i,
    {
        proof {
            assert(t.take(i + 1).drop_last() =~= t.take(i as int));
            assert(t.take(i + 1).last() == opt_text(rows@[i as int]));
        }
        match &rows[i] {
            None => {
                proof {
                    lemma_collected_err(t, i + 1);
                }
                return Err(EngineError::ReadRow);
            },
            Some(text) => match parse_json(text.as_str().as_bytes()) {
                None => {
                    proof {
                        lemma_collected_err(t, i + 1);
                    }
                    return Err(EngineError::ParseRow);
                },
                Some(j) => {
                    let ghost before = json_views(out@);
                    let ghost w = j@;
                    out.push(j);
                    assert(json_views(out@) =~= before.push(w));
                },
            },
        }
        i = i + 1;
    }
    assert(t.take(rows@.len() as int) =~= t);
    Ok(out)
}

/// The rows to return: the first `cap` of those that came.
pub open spec fn kept<T>(rows: Seq<T>, cap: nat) -> Seq<T> {
    if rows.len() <= cap {
        rows
    } else {
        rows.take(cap as int)
    }
}

/// The answer to a query: the first `cap` rows, and whether there were more.
pub fn finish_query(rows: Vec<Json>, cap: u32) -> (r: QueryOutput)
    ensures
        r.rows@ == kept(rows@, cap as nat),
        r.truncated == (rows@.len() > cap),
{
    let mut rows = rows;
    let cap: usize = cap as usize;
    let truncated = rows.len() > cap;
    let ghost before = rows@;
    rows.truncate(cap);
    assert(rows@ =~= kept(before, cap as nat));
    QueryOutput { rows, truncated }
}

/// Asking for one row more than the cap loses nothing: the rows returned are
/// the first ones of the whole result, and the cut is told exactly when the
/// result has more rows than the cap.
pub proof fn law_cut_is_told(full: Seq<JsonView>, cap: nat)
    ensures
        kept(kept(full, cap + 1), cap) == kept(full, cap),
        kept(full, cap + 1).len() > cap <==> full.len() > cap,
        kept(full, cap).len() <= cap,
{
    assert(kept(kept(full, cap + 1), cap) =~= kept(full, cap));
}

// ---- laws of the query path ----

/// A query may ask for one to five thousand rows and gets as many; none asked for means
/// five thousand, fewer than one means one, and more means five thousand.
pub proof fn law_at_most_five_thousand_rows(n: usize)
    ensures
        cap_for(None) == 5000,
        n == 0 ==> cap_for(Some(n)) == 1,
        1 <= n <= 5000 ==> cap_for(Some(n)) == n,
        n > 5000 ==> cap_for(Some(n)) == 5000,
{
}

/// Cleaning takes the white space around a query, the semicolons that close it, and the
/// white space before those, and leaves the query itself.
pub proof fn law_cleaning_keeps_the_query(
    a: Seq<char>,
    sql: Seq<char>,
    b: Seq<char>,
    closing: nat,
    c: Seq<char>,
)
    requires
        all_white(a),
        all_white(b),
        all_white(c),
        is_trim(sql),
        sql.len() > 0,
        sql.last() != ';',
    ensures
        closing > 0 ==> cleaned(a + (sql + b + repeated(';', closing)) + c) == sql,
        cleaned(a + sql + c) == sql,
{
    let e = Seq::<char>::empty();
    law_trimming_takes_the_white_space_around(a, sql, c);
    law_stripping_takes_the_tail(sql, ';', 0);
    assert(sql + repeated(';', 0) =~= sql);
    law_trimming_takes_the_white_space_around(e, sql, e);
    assert(e + sql + e =~= sql);
    if closing > 0 {
        let mid = sql + b + repeated(';', closing);
        assert(mid[0] == sql[0]);
        assert(mid.last() == ';');
        law_trimming_takes_the_white_space_around(a, mid, c);
        if b.len() > 0 {
            assert((sql + b).last() == b.last());
            assert(is_white(b[b.len() - 1]));
        } else {
            assert((sql + b) =~= sql);
        }
        law_stripping_takes_the_tail(sql + b, ';', closing);
        assert(e + sql + b =~= sql + b);
        law_trimming_takes_the_white_space_around(e, sql, b);
    }
}

/// A query of nothing but white space and semicolons behind it is empty.
pub proof fn law_nothing_is_an_empty_query(a: Seq<char>, closing: nat, b: Seq<char>)
    requires
        all_white(a),
        all_white(b),
    ensures
        cleaned(a + repeated(';', closing) + b).len() == 0,
{
    let e = Seq::<char>::empty();
    let mid = repeated(';', closing);
    law_trimming_takes_the_white_space_around(a, mid, b);
    law_stripping_takes_the_tail(e, ';', closing);
    assert(e + mid =~= mid);
    law_trimming_takes_the_white_space_around(e, e, e);
    assert(e + e + e =~= e);
}

/// The statements that the engine is asked to run: the probe for a query, the query with
/// room for one row more than its cap, and a trusted query as it is.
pub proof fn law_queries_are_wrapped(sql: Seq<char>, cap: nat)
    ensures
        probe(sql) == "SELECT json_serialize_sql('"@ + doubled(sql) + "')"@,
        bounded(sql, cap) == "SELECT to_json(t)::VARCHAR AS j FROM ("@ + sql + ") AS t"@
            + " LIMIT "@ + decimal(cap + 1),
        wrapped(sql) == "SELECT to_json(t)::VARCHAR AS j FROM ("@ + sql + ") AS t"@,
        bounded(sql, cap) == wrapped(sql) + " LIMIT "@ + decimal(cap + 1),
{
    reveal_strlit(") AS t LIMIT ");
    reveal_strlit(") AS t");
    reveal_strlit(" LIMIT ");
    assert(") AS t LIMIT "@ =~= ") AS t"@ + " LIMIT "@);
    let head = "SELECT to_json(t)::VARCHAR AS j FROM ("@;
    assert(head + sql + (") AS t"@ + " LIMIT "@) + decimal(cap + 1) =~= head + sql + ") AS t"@
        + " LIMIT "@ + decimal(cap + 1));
}

/// The document that a row writes, if it could be read and is one.
pub open spec fn row_document(row: Option<Seq<char>>) -> Option<JsonView> {
    match row {
        Some(t) => json_document(encode_utf8(t)),
        None => None,
    }
}

/// Rows are collected exactly if every one was read and is a document: then all of them,
/// in their order.
pub proof fn law_every_row_becomes_a_document(rows: Seq<Option<Seq<char>>>)
    ensures
        collected(rows) is Ok <==> forall|i: int|
            0 <= i < rows.len() ==> row_document(#[trigger] rows[i]) is Some,
        collected(rows) is Ok ==> collected(rows)->Ok_0.len() == rows.len() && forall|i: int|
            0 <= i < rows.len() ==> row_document(#[trigger] rows[i]) == Some(
                collected(rows)->Ok_0[i],
            ),
    decreases rows.len(),
{
    if rows.len() > 0 {
        let front = rows.drop_last();
        law_every_row_becomes_a_document(front);
        if collected(rows) is Ok {
            assert forall|i: int| 0 <= i < rows.len() implies row_document(#[trigger] rows[i])
                == Some(collected(rows)->Ok_0[i]) by {
                if i < front.len() {
                    assert(front[i] == rows[i]);
                }
            }
        }
        if forall|i: int| 0 <= i < rows.len() ==> row_document(#[trigger] rows[i]) is Some {
            assert forall|i: int| 0 <= i < front.len() implies row_document(#[trigger] front[i])
                is Some by {
                assert(front[i] == rows[i]);
            }
            assert(row_document(rows[rows.len() - 1]) is Some);
        }
    }
}

/// The first row that was not read, or is no document, ends the collecting: with the
/// failure to read it or to parse it.
pub proof fn law_the_first_bad_row_is_told(rows: Seq<Option<Seq<char>>>, i: int)
    requires
        0 <= i < rows.len(),
        row_document(rows[i]) is None,
        forall|j: int| 0 <= j < i ==> row_document(#[trigger] rows[j]) is Some,
    ensures
        rows[i] is None ==> collected(rows) == Err::<Seq<JsonView>, _>(EngineErrorView::ReadRow),
        rows[i] is Some ==> collected(rows) == Err::<Seq<JsonView>, _>(EngineErrorView::ParseRow),
{
    let t = rows.take(i + 1);
    let front = rows.take(i);
    assert(t.drop_last() =~= front);
    assert(t.last() == rows[i]);
    assert forall|j: int| 0 <= j < front.len() implies row_document(#[trigger] front[j])
        is Some by {
        assert(front[j] == rows[j]);
    }
    law_every_row_becomes_a_document(front);
    lemma_collected_err(rows, i + 1);
}

/// The rows that are kept are the first ones, up to the cap.
pub proof fn law_the_first_rows_are_kept(full: Seq<JsonView>, cap: nat, i: int)
    ensures
        full.len() <= cap ==> kept(full, cap) == full,
        full.len() > cap ==> kept(full, cap).len() == cap,
        0 <= i < kept(full, cap).len() ==> kept(full, cap)[i] == full[i],
{
}

/// A statement is handed out only for a query that the guard accepts, and then it is that
/// query, wrapped, with room for one row more than its cap; what the guard refuses is
/// told as the guard tells it.
pub proof fn law_only_guarded_queries_are_released(
    sql: Seq<char>,
    cap: nat,
    answer: Option<Seq<u8>>,
    r: Result<Seq<char>, EngineErrorView>,
)
    requires
        released(sql, cap, answer, r),
    ensures
        r is Ok ==> answer is Some && json_document(answer->0) is Some && vetted(
            json_document(answer->0)->0,
            Ok(()),
        ) && r->Ok_0 == "SELECT to_json(t)::VARCHAR AS j FROM ("@ + sql + ") AS t LIMIT "@
            + decimal(cap + 1),
        r is Err && answer is Some && json_document(answer->0) is Some ==> vetted(
            json_document(answer->0)->0,
            Err(r->Err_0),
        ),
        answer is None ==> r == Err::<Seq<char>, _>(EngineErrorView::ParseQuery),
        answer is Some && json_document(answer->0) is None ==> r == Err::<Seq<char>, _>(
            EngineErrorView::ReadAst,
        ),
{
}

} // verus!
