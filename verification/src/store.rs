//! A read-only analytic store over Parquet files: where they lie and how a
//! statement over them is wrapped so that each row comes out as JSON.

use vstd::prelude::*;
use vstd::string::*;

use crate::analytics::params_sql;
use crate::analytics::wrapped;
use crate::config::Config;
use crate::serving::root_of;
use crate::serving::secret_of;
use crate::serving::Source;
use crate::text::opt_text;

verus! {

/// The location of the Parquet files.
pub struct Store {
    base: String,
}

/// A store, and the statement to run before the first query, if one is needed.
pub struct OpenedStore {
    pub store: Store,
    pub secret_sql: Option<String>,
}

impl Store {
    /// The base of every Parquet path.
    pub closed spec fn root(&self) -> Seq<char> {
        self.base@
    }

    /// The store of a configuration. R2 needs a secret, which resolves the endpoint
    /// of `r2://` addresses.
    pub fn open(cfg: &Config) -> (r: OpenedStore)
        ensures
            r.store.root() == root_of(cfg.data_base@),
            opt_text(r.secret_sql) == secret_of(cfg.data_base@),
    {
        let source = Source::new(&cfg.data_base);
        OpenedStore { store: Store { base: source.base }, secret_sql: source.secret_sql }
    }

    /// Base URI for Parquet paths, e.g. "./data" or "r2://idx-data".
    pub fn base(&self) -> (r: &str)
        ensures
            r@ == self.root(),
    {
        self.base.as_str()
    }

    /// Glob for a collection's Parquet, e.g. `parquet_glob("yfdaily", "year=*/*.parquet")`.
    pub fn parquet_glob(&self, collection: &str, suffix: &str) -> (r: String)
        ensures
            r@ == files_under(self.root(), collection@, suffix@),
    {
        let mut s = self.base.clone();
        s.append("/");
        s.append(collection);
        s.append("/");
        s.append(suffix);
        s
    }

    /// The statement that runs `sql` and gives each row as a JSON object.
    pub fn query_json(&self, sql: &str) -> (r: String)
        ensures
            r@ == wrapped(sql@),
    {
        params_sql(sql)
    }
}

/// The files of a collection under the root of a store.
pub open spec fn files_under(
    root: Seq<char>,
    collection: Seq<char>,
    suffix: Seq<char>,
) -> Seq<char> {
    root + "/"@ + collection + "/"@ + suffix
}

/// The statement of the ad-hoc query tool.
pub open spec fn adhoc(sql: Seq<char>) -> Seq<char> {
    "SELECT to_json(t)::VARCHAR FROM ("@ + sql + ") t"@
}

/// The statement of the ad-hoc query tool: each row of `sql` as a JSON text.
pub fn adhoc_sql(sql: &str) -> (r: String)
    ensures
        r@ == adhoc(sql@),
{
    let mut s = "SELECT to_json(t)::VARCHAR FROM (".to_string();
    s.append(sql);
    s.append(") t");
    s
}

/// The files of a collection lie under its name, and that under the root, with a slash
/// between each two.
pub proof fn law_files_lie_under_their_collection(
    root: Seq<char>,
    collection: Seq<char>,
    suffix: Seq<char>,
    more: Seq<char>,
)
    ensures
        files_under(root, collection, suffix) == root + "/"@ + collection + "/"@ + suffix,
        files_under(root, collection, suffix) + more == files_under(
            root,
            collection,
            suffix + more,
        ),
{
    assert(files_under(root, collection, suffix) + more =~= files_under(
        root,
        collection,
        suffix + more,
    ));
}

/// The ad-hoc tool asks for each row of a query as a JSON text.
pub proof fn law_adhoc_rows_are_texts(sql: Seq<char>)
    ensures
        adhoc(sql) == "SELECT to_json(t)::VARCHAR FROM ("@ + sql + ") t"@,
{
}

} // verus!
