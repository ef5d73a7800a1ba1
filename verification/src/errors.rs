//! What the engine answers when it cannot serve a request.

use vstd::prelude::*;
use vstd::string::*;

use crate::text::decimal;
use crate::text::push_decimal;

verus! {

/// Why the engine refused or failed.
#[derive(Debug)]
pub enum EngineError {
    /// The query text is empty.
    EmptyQuery,
    /// The engine could not run the parser on the query.
    ParseQuery,
    /// The parser's answer is not JSON.
    ReadAst,
    /// The parser refused the query, for the given reason.
    NotSelect(String),
    /// The parser's answer lists no statements.
    Unparsed,
    /// The query holds this many statements instead of one.
    StatementCount(usize),
    /// The query calls a table function that is not permitted.
    TableFunction(String),
    /// The query reads a table that is not in the catalog.
    Table(String),
    /// A result row could not be read.
    ReadRow,
    /// A result row is not JSON.
    ParseRow,
    /// The task that ran the query ended abnormally.
    QueryTask,
    /// The query ran longer than this many seconds.
    QueryTimeout(u64),
    /// The task that described the schema ended abnormally.
    DescribeTask,
    /// The schema description ran longer than this many seconds.
    DescribeTimeout(u64),
    /// The connection pool is closed.
    PoolClosed,
    /// The engine could not prepare the statement.
    PrepareQuery,
    /// The engine could not execute the statement.
    ExecuteQuery,
    /// The engine could not describe a relation.
    DescribeRelation,
    /// The columns of a relation could not be read.
    ReadColumns,
    /// One column of a relation could not be read.
    ColumnRow,
    /// No dataset could be loaded from this data root.
    NoDatasets(String),
}

/// The mathematical value of an [`EngineError`].
pub enum EngineErrorView {
    EmptyQuery,
    ParseQuery,
    ReadAst,
    NotSelect(Seq<char>),
    Unparsed,
    StatementCount(nat),
    TableFunction(Seq<char>),
    Table(Seq<char>),
    ReadRow,
    ParseRow,
    QueryTask,
    QueryTimeout(nat),
    DescribeTask,
    DescribeTimeout(nat),
    PoolClosed,
    PrepareQuery,
    ExecuteQuery,
    DescribeRelation,
    ReadColumns,
    ColumnRow,
    NoDatasets(Seq<char>),
}

impl EngineErrorView {
    /// The text shown to the caller.
    pub open spec fn message(self) -> Seq<char> {
        match self {
            EngineErrorView::EmptyQuery => "empty query"@,
            EngineErrorView::ParseQuery => "parse query"@,
            EngineErrorView::ReadAst => "read parsed ast"@,
            EngineErrorView::NotSelect(m) => "only a single read-only SELECT is allowed: "@ + m,
            EngineErrorView::Unparsed => "could not parse query"@,
            EngineErrorView::StatementCount(n) => "exactly one statement is allowed (got "@
                + decimal(n) + ")"@,
            EngineErrorView::TableFunction(f) => "table function not allowed: "@ + f,
            EngineErrorView::Table(t) => "unknown or disallowed table: "@ + t,
            EngineErrorView::ReadRow => "read row"@,
            EngineErrorView::ParseRow => "parse row json"@,
            EngineErrorView::QueryTask => "query task failed"@,
            EngineErrorView::QueryTimeout(s) => "query exceeded the "@ + decimal(s)
                + "s time limit"@,
            EngineErrorView::DescribeTask => "describe task failed"@,
            EngineErrorView::DescribeTimeout(s) => "describe exceeded the "@ + decimal(s)
                + "s time limit"@,
            EngineErrorView::PoolClosed => "serving pool closed"@,
            EngineErrorView::PrepareQuery => "prepare query"@,
            EngineErrorView::ExecuteQuery => "execute query"@,
            EngineErrorView::DescribeRelation => "describe relation"@,
            EngineErrorView::ReadColumns => "read columns"@,
            EngineErrorView::ColumnRow => "column row"@,
            EngineErrorView::NoDatasets(b) => "no datasets could be loaded from "@ + b,
        }
    }
}

impl EngineError {
    /// The mathematical value.
    pub open spec fn view(&self) -> EngineErrorView {
        match self {
            EngineError::EmptyQuery => EngineErrorView::EmptyQuery,
            EngineError::ParseQuery => EngineErrorView::ParseQuery,
            EngineError::ReadAst => EngineErrorView::ReadAst,
            EngineError::NotSelect(m) => EngineErrorView::NotSelect(m@),
            EngineError::Unparsed => EngineErrorView::Unparsed,
            EngineError::StatementCount(n) => EngineErrorView::StatementCount(*n as nat),
            EngineError::TableFunction(f) => EngineErrorView::TableFunction(f@),
            EngineError::Table(t) => EngineErrorView::Table(t@),
            EngineError::ReadRow => EngineErrorView::ReadRow,
            EngineError::ParseRow => EngineErrorView::ParseRow,
            EngineError::QueryTask => EngineErrorView::QueryTask,
            EngineError::QueryTimeout(s) => EngineErrorView::QueryTimeout(*s as nat),
            EngineError::DescribeTask => EngineErrorView::DescribeTask,
            EngineError::DescribeTimeout(s) => EngineErrorView::DescribeTimeout(*s as nat),
            EngineError::PoolClosed => EngineErrorView::PoolClosed,
            EngineError::PrepareQuery => EngineErrorView::PrepareQuery,
            EngineError::ExecuteQuery => EngineErrorView::ExecuteQuery,
            EngineError::DescribeRelation => EngineErrorView::DescribeRelation,
            EngineError::ReadColumns => EngineErrorView::ReadColumns,
            EngineError::ColumnRow => EngineErrorView::ColumnRow,
            EngineError::NoDatasets(b) => EngineErrorView::NoDatasets(b@),
        }
    }

    /// The text shown to the caller.
    pub fn message(&self) -> (r: String)
        ensures
            r@ == self@.message(),
    {
        match self {
            EngineError::EmptyQuery => "empty query".to_string(),
            EngineError::ParseQuery => "parse query".to_string(),
            EngineError::ReadAst => "read parsed ast".to_string(),
            EngineError::NotSelect(m) => "only a single read-only SELECT is allowed: ".to_string(
            ).concat(m.as_str()),
            EngineError::Unparsed => "could not parse query".to_string(),
            EngineError::StatementCount(n) => with_number(
                "exactly one statement is allowed (got ",
                *n as u64,
                ")",
            ),
            EngineError::TableFunction(f) => "table function not allowed: ".to_string().concat(
                f.as_str(),
            ),
            EngineError::Table(t) => "unknown or disallowed table: ".to_string().concat(t.as_str()),
            EngineError::ReadRow => "read row".to_string(),
            EngineError::ParseRow => "parse row json".to_string(),
            EngineError::QueryTask => "query task failed".to_string(),
            EngineError::QueryTimeout(s) => with_number("query exceeded the ", *s, "s time limit"),
            EngineError::DescribeTask => "describe task failed".to_string(),
            EngineError::DescribeTimeout(s) => with_number(
                "describe exceeded the ",
                *s,
                "s time limit",
            ),
            EngineError::PoolClosed => "serving pool closed".to_string(),
            EngineError::PrepareQuery => "prepare query".to_string(),
            EngineError::ExecuteQuery => "execute query".to_string(),
            EngineError::DescribeRelation => "describe relation".to_string(),
            EngineError::ReadColumns => "read columns".to_string(),
            EngineError::ColumnRow => "column row".to_string(),
            EngineError::NoDatasets(b) => "no datasets could be loaded from ".to_string().concat(
                b.as_str(),
            ),
        }
    }
}

fn with_number(before: &str, n: u64, after: &str) -> (r: String)
    ensures
        r@ == before@ + decimal(n as nat) + after@,
{
    let mut s = before.to_string();
    push_decimal(&mut s, n);
    s.append(after);
    s
}

/// What the caller is told of each failure: fixed words, or fixed words with the one
/// thing that the failure is about.
pub proof fn law_failures_are_told_in_fixed_words(t: String, n: usize, secs: u64)
    ensures
        EngineError::EmptyQuery@.message() == "empty query"@,
        EngineError::ParseQuery@.message() == "parse query"@,
        EngineError::ReadAst@.message() == "read parsed ast"@,
        EngineError::Unparsed@.message() == "could not parse query"@,
        EngineError::ReadRow@.message() == "read row"@,
        EngineError::ParseRow@.message() == "parse row json"@,
        EngineError::QueryTask@.message() == "query task failed"@,
        EngineError::DescribeTask@.message() == "describe task failed"@,
        EngineError::PoolClosed@.message() == "serving pool closed"@,
        EngineError::PrepareQuery@.message() == "prepare query"@,
        EngineError::ExecuteQuery@.message() == "execute query"@,
        EngineError::DescribeRelation@.message() == "describe relation"@,
        EngineError::ReadColumns@.message() == "read columns"@,
        EngineError::ColumnRow@.message() == "column row"@,
        EngineError::NotSelect(t)@.message() == "only a single read-only SELECT is allowed: "@ + t@,
        EngineError::TableFunction(t)@.message() == "table function not allowed: "@ + t@,
        EngineError::Table(t)@.message() == "unknown or disallowed table: "@ + t@,
        EngineError::NoDatasets(t)@.message() == "no datasets could be loaded from "@ + t@,
        EngineError::StatementCount(n)@.message() == "exactly one statement is allowed (got "@
            + decimal(n as nat) + ")"@,
        EngineError::QueryTimeout(secs)@.message() == "query exceeded the "@ + decimal(secs as nat)
            + "s time limit"@,
        EngineError::DescribeTimeout(secs)@.message() == "describe exceeded the "@ + decimal(
            secs as nat,
        ) + "s time limit"@,
{
}

} // verus!
