//! The export job: which statements of the list run, and where their output lies.

use vstd::prelude::*;
use vstd::string::*;

use crate::text::contains_text;
use crate::text::find_char;
use crate::text::first_index;
use crate::text::has_text;
use crate::text::is_one_of;
use crate::text::law_parts_of_texts;
use crate::text::lemma_first_index;
use crate::text::texts;

verus! {

/// What the job runs first. There are many daily partitions per dataset, so the
/// engine may keep enough files open.
pub const JOB_SQL: &'static str =
    "SET threads TO 4; SET partitioned_write_max_open_files TO 2000;";

/// One statement of the list, with the dataset that it writes.
#[derive(Debug)]
pub struct Stmt {
    pub dataset: String,
    pub sql: String,
}

/// True if a run with these arguments includes a dataset: no arguments mean all.
pub open spec fn included(args: Seq<Seq<char>>, dataset: Seq<char>) -> bool {
    args.len() == 0 || args.contains(dataset)
}

/// The statements that a run includes, in order.
pub open spec fn chosen(all: Seq<Stmt>, args: Seq<Seq<char>>) -> Seq<Stmt> {
    all.filter(|s: Stmt| included(args, s.dataset@))
}

/// The positions of the statements that a run includes, in order.
pub fn select(all: &Vec<Stmt>, args: &Vec<String>) -> (r: Vec<usize>)
    ensures
        forall|i: int| 0 <= i < r@.len() ==> (#[trigger] r@[i]) < all@.len(),
        r@.map_values(|k: usize| all@[k as int]) == chosen(all@, texts(args@)),
{
    let ghost keep = |s: Stmt| included(texts(args@), s.dataset@);
    let mut out: Vec<usize> = Vec::new();
    let mut i: usize = 0;
    proof {
        reveal(Seq::filter);
        assert(all@.take(0) =~= Seq::empty());
        assert(out@.map_values(|k: usize| all@[k as int]) =~= all@.take(0).filter(keep));
    }
    while i < all.len()
        invariant
            i <= all@.len(),
            keep == (|s: Stmt| included(texts(args@), s.dataset@)),
            forall|j: int| 0 <= j < out@.len() ==> (#[trigger] out@[j]) < all@.len(),
            out@.map_values(|k: usize| all@[k as int]) == all@.take(i as int).filter(keep),
        decreases all@.len() - i,
    {
        proof {
            reveal(Seq::filter);
            assert(all@.take(i + 1).drop_last() =~= all@.take(i as int));
            assert(all@.take(i + 1).last() == all@[i as int]);
        }
        if args.len() == 0 || is_one_of(all[i].dataset.as_str(), args) {
            let ghost before = out@.map_values(|k: usize| all@[k as int]);
            out.push(i);
            assert(out@.map_values(|k: usize| all@[k as int]) =~= before.push(all@[i as int]));
        }
        i = i + 1;
    }
    assert(all@.take(i as int) =~= all@);
    out
}

/// True if a run with these arguments clears the data first.
pub open spec fn clears(args: Seq<Seq<char>>) -> bool {
    args.len() == 0
}

/// True if a run clears the data first: a full run does, a run of some datasets
/// keeps the rest.
pub fn clears_data(args: &Vec<String>) -> (r: bool)
    ensures
        r == clears(texts(args@)),
{
    args.len() == 0
}

/// The directory of a dataset's output.
pub open spec fn output_path(dataset: Seq<char>) -> Seq<char> {
    "data/"@ + dataset
}

/// The directory of a dataset's output.
pub fn output_dir(dataset: &str) -> (r: String)
    ensures
        r@ == output_path(dataset@),
{
    "data/".to_string().concat(dataset)
}

/// The files that a statement writes.
pub open spec fn output_files(s: Stmt) -> Seq<char> {
    output_path(s.dataset@) + (if has_text(s.sql@, "PARTITION_BY"@) {
        "/date=*/*.parquet"@
    } else {
        "/latest.parquet"@
    })
}

/// The statement that counts the rows which a statement wrote.
pub open spec fn count_query(s: Stmt) -> Seq<char> {
    "SELECT count(*) FROM read_parquet('"@ + output_files(s) + "')"@
}

/// The statement that counts the rows which a statement wrote.
pub fn count_sql(s: &Stmt) -> (r: String)
    ensures
        r@ == count_query(*s),
{
    let mut glob = output_dir(s.dataset.as_str());
    if contains_text(s.sql.as_str(), "PARTITION_BY") {
        glob.append("/date=*/*.parquet");
    } else {
        glob.append("/latest.parquet");
    }
    let mut r = "SELECT count(*) FROM read_parquet('".to_string();
    r.append(glob.as_str());
    r.append("')");
    r
}

/// The first line of a message, without its line ending.
pub open spec fn headline(message: Seq<char>) -> Seq<char> {
    match first_index(message, '\n') {
        None => message,
        Some(i) => if i > 0 && message[i - 1] == '\r' {
            message.take(i - 1)
        } else {
            message.take(i)
        },
    }
}

/// The first line of a message, without its line ending.
pub fn first_line(message: &str) -> (r: String)
    ensures
        r@ == headline(message@),
{
    match find_char(message, '\n') {
        None => message.to_string(),
        Some(i) => {
            let mut end: usize = i;
            if i > 0 && message.get_char(i - 1) == '\r' {
                end = i - 1;
            }
            let line = message.substring_char(0, end).to_string();
            assert(line@ =~= headline(message@));
            line
        },
    }
}

// ---- laws ----

/// A run without arguments takes every dataset and clears the data first; a run with
/// arguments takes the datasets that are named, exactly, and keeps the rest.
pub proof fn law_a_run_takes_what_is_named(args: Seq<Seq<char>>, dataset: Seq<char>, i: int)
    ensures
        args.len() == 0 ==> included(args, dataset) && clears(args),
        args.len() > 0 ==> !clears(args),
        0 <= i < args.len() ==> included(args, args[i]),
        args.len() > 0 && (forall|j: int| 0 <= j < args.len() ==> args[j] != dataset)
            ==> !included(args, dataset),
{
}

/// The statements of a run keep their order in the list; each is one whose dataset is
/// taken, and none of those is left out.
pub proof fn law_statements_keep_their_order(all: Seq<Stmt>, args: Seq<Seq<char>>, s: Stmt)
    ensures
        chosen(all.push(s), args) == (if included(args, s.dataset@) {
            chosen(all, args).push(s)
        } else {
            chosen(all, args)
        }),
        args.len() == 0 ==> chosen(all, args) == all,
    decreases all.len(),
{
    reveal(Seq::filter);
    assert(all.push(s).drop_last() =~= all);
    if args.len() == 0 && all.len() > 0 {
        law_statements_keep_their_order(all.drop_last(), args, all.last());
        assert(all.drop_last().push(all.last()) =~= all);
    }
}

/// A statement that writes partitions leaves one directory for each day, any other one
/// a single file, under the directory of its dataset; its rows are counted from there.
pub proof fn law_output_lies_under_its_dataset(s: Stmt, before: Seq<char>, after: Seq<char>)
    ensures
        output_path(s.dataset@) == "data/"@ + s.dataset@,
        s.sql@ == before + "PARTITION_BY"@ + after ==> output_files(s) == "data/"@ + s.dataset@
            + "/date=*/*.parquet"@,
        !has_text(s.sql@, "PARTITION_BY"@) ==> output_files(s) == "data/"@ + s.dataset@
            + "/latest.parquet"@,
        count_query(s) == "SELECT count(*) FROM read_parquet('"@ + output_files(s) + "')"@,
{
    law_parts_of_texts(before, "PARTITION_BY"@, after, s.sql@);
}

/// The first line of a message ends at the first line feed, and a carriage return before
/// that belongs to its ending.
pub proof fn law_the_headline_is_the_first_line(line: Seq<char>, rest: Seq<char>)
    requires
        !line.contains('\n'),
    ensures
        headline(line) == line,
        line.len() == 0 || line.last() != '\r' ==> headline(line + seq!['\n'] + rest) == line,
        headline(line + seq!['\r', '\n'] + rest) == line,
{
    lemma_first_index(line, '\n');
    if first_index(line, '\n') is Some {
        assert(line.contains(line[first_index(line, '\n')->0]));
    }
    let a = line + seq!['\n'] + rest;
    lemma_first_at(a, line.len() as int);
    if line.len() > 0 {
        assert(a[line.len() - 1] == line.last());
    }
    if line.len() == 0 || line.last() != '\r' {
        assert(headline(a) =~= line);
    }
    let b = line + seq!['\r', '\n'] + rest;
    lemma_first_at(b, line.len() as int + 1);
    assert(headline(b) =~= line);
}

proof fn lemma_first_at(s: Seq<char>, k: int)
    requires
        0 <= k < s.len(),
        s[k] == '\n',
        forall|j: int| 0 <= j < k ==> s[j] != '\n',
    ensures
        first_index(s, '\n') == Some(k),
{
    lemma_first_index(s, '\n');
    assert(s.contains(s[k]));
}

/// The job is kept to four threads and may keep two thousand files open.
pub proof fn law_the_job_is_limited_first()
    ensures
        JOB_SQL@ == "SET threads TO 4; SET partitioned_write_max_open_files TO 2000;"@,
{
}

} // verus!
