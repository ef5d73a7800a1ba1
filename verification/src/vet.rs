//! The guard on untrusted SQL: decides from the parsed query whether it may run.
//!
//! The engine's own parser turns a query into a JSON tree. The guard passes it
//! only if it is one statement, reads nothing but tables of the catalog and common
//! table expressions that are in scope, and calls no table function that could
//! reach files or the network.

use vstd::prelude::*;
use vstd::string::*;

use crate::catalog::allowed;
use crate::catalog::is_allowed_table;
use crate::catalog::is_safe_table_function;
use crate::catalog::safe_function;
use crate::errors::EngineError;
use crate::errors::EngineErrorView;
use crate::json::json_document;
use crate::json::parse_json;
use crate::json::Json;
use crate::json::JsonView;
use crate::names::NameSet;
use crate::text::ascii_lower;
use crate::text::less;
use crate::text::lower;
use crate::text::opt_text;
use crate::text::same_text;

verus! {

// ---- the tree ----

/// Every value in the tree of `v`, `v` itself first, each before what is below it.
pub open spec fn nodes(v: JsonView) -> Seq<JsonView>
    decreases v,
{
    match v {
        JsonView::Array(items) => seq![v] + item_nodes(items),
        JsonView::Object(m) => seq![v] + member_nodes(m),
        _ => seq![v],
    }
}

/// The nodes of the items of an array, in order.
pub open spec fn item_nodes(items: Seq<JsonView>) -> Seq<JsonView>
    decreases items,
{
    if items.len() == 0 {
        Seq::empty()
    } else {
        item_nodes(items.drop_last()) + nodes(items.last())
    }
}

/// The nodes of the members of an object, in order.
pub open spec fn member_nodes(m: Seq<(Seq<char>, JsonView)>) -> Seq<JsonView>
    decreases m,
{
    if m.len() == 0 {
        Seq::empty()
    } else {
        member_nodes(m.drop_last()) + nodes(m.last().1)
    }
}

/// The table that a node reads, in lower case.
pub open spec fn table_of(v: JsonView) -> Option<Seq<char>> {
    if v.text_at("type"@) == Some("BASE_TABLE"@) {
        match v.text_at("table_name"@) {
            Some(t) => Some(lower(t)),
            None => None,
        }
    } else {
        None
    }
}

/// The table function that a node calls.
pub open spec fn function_of(v: JsonView) -> Option<Seq<char>> {
    if v.text_at("type"@) == Some("TABLE_FUNCTION"@) {
        match v.get("function"@) {
            Some(f) => f.text_at("function_name"@),
            None => None,
        }
    } else {
        None
    }
}

/// The entries of the common table expressions that a node declares.
pub open spec fn cte_entries(v: JsonView) -> Seq<JsonView> {
    match v.get("cte_map"@) {
        Some(c) => match c.get("map"@) {
            Some(m) => match m.items() {
                Some(e) => e,
                None => Seq::empty(),
            },
            None => Seq::empty(),
        },
        None => Seq::empty(),
    }
}

/// True if an entry declares the name `x`, given in lower case.
pub open spec fn entry_declares(e: JsonView, x: Seq<char>) -> bool {
    match e.text_at("key"@) {
        Some(k) => lower(k) == x,
        None => false,
    }
}

/// True if a node declares `x` as a common table expression.
pub open spec fn declares(v: JsonView, x: Seq<char>) -> bool {
    exists|i: int|
        0 <= i < cte_entries(v).len() && #[trigger] entry_declares(cte_entries(v)[i], x)
}

/// The tables that some nodes read.
pub open spec fn tables_in(ns: Seq<JsonView>) -> Set<Seq<char>> {
    Set::new(|x: Seq<char>| exists|i: int| 0 <= i < ns.len() && #[trigger] table_of(ns[i]) == Some(x))
}

/// The common table expressions that some nodes declare.
pub open spec fn ctes_in(ns: Seq<JsonView>) -> Set<Seq<char>> {
    Set::new(|x: Seq<char>| exists|i: int| 0 <= i < ns.len() && #[trigger] declares(ns[i], x))
}

/// The first table function among some nodes that is not permitted.
pub open spec fn unsafe_in(ns: Seq<JsonView>) -> Option<Seq<char>>
    decreases ns.len(),
{
    if ns.len() == 0 {
        None
    } else {
        match unsafe_in(ns.drop_last()) {
            Some(f) => Some(f),
            None => match function_of(ns.last()) {
                Some(f) => if safe_function(f) {
                    None
                } else {
                    Some(f)
                },
                None => None,
            },
        }
    }
}

proof fn lemma_tables_concat(a: Seq<JsonView>, b: Seq<JsonView>)
    ensures
        tables_in(a + b) == tables_in(a).union(tables_in(b)),
        ctes_in(a + b) == ctes_in(a).union(ctes_in(b)),
{
    let c = a + b;
    assert forall|x: Seq<char>| #[trigger] tables_in(c).contains(x) == tables_in(a).union(
        tables_in(b),
    ).contains(x) by {
        if tables_in(a).contains(x) {
            let i = choose|i: int| 0 <= i < a.len() && #[trigger] table_of(a[i]) == Some(x);
            assert(table_of(c[i]) == Some(x));
        }
        if tables_in(b).contains(x) {
            let i = choose|i: int| 0 <= i < b.len() && #[trigger] table_of(b[i]) == Some(x);
            assert(table_of(c[a.len() + i]) == Some(x));
        }
        if tables_in(c).contains(x) {
            let i = choose|i: int| 0 <= i < c.len() && #[trigger] table_of(c[i]) == Some(x);
            if i < a.len() {
                assert(table_of(a[i]) == Some(x));
            } else {
                assert(table_of(b[i - a.len()]) == Some(x));
            }
        }
    }
    assert(tables_in(c) =~= tables_in(a).union(tables_in(b)));
    assert forall|x: Seq<char>| #[trigger] ctes_in(c).contains(x) == ctes_in(a).union(
        ctes_in(b),
    ).contains(x) by {
        if ctes_in(a).contains(x) {
            let i = choose|i: int| 0 <= i < a.len() && #[trigger] declares(a[i], x);
            assert(declares(c[i], x));
        }
        if ctes_in(b).contains(x) {
            let i = choose|i: int| 0 <= i < b.len() && #[trigger] declares(b[i], x);
            assert(declares(c[a.len() + i], x));
        }
        if ctes_in(c).contains(x) {
            let i = choose|i: int| 0 <= i < c.len() && #[trigger] declares(c[i], x);
            if i < a.len() {
                assert(declares(a[i], x));
            } else {
                assert(declares(b[i - a.len()], x));
            }
        }
    }
    assert(ctes_in(c) =~= ctes_in(a).union(ctes_in(b)));
}

proof fn lemma_unsafe_concat(a: Seq<JsonView>, b: Seq<JsonView>)
    ensures
        unsafe_in(a + b) == (match unsafe_in(a) {
            Some(f) => Some(f),
            None => unsafe_in(b),
        }),
    decreases b.len(),
{
    if b.len() == 0 {
        assert(a + b =~= a);
    } else {
        lemma_unsafe_concat(a, b.drop_last());
        assert((a + b).drop_last() =~= a + b.drop_last());
    }
}

/// What a walk has found: the tables read, the common table expressions
/// declared, and the first table function that is not permitted.
pub struct Findings {
    pub bases: NameSet,
    pub ctes: NameSet,
    pub bad_fn: Option<String>,
}

impl Findings {
    /// The sets are well formed.
    pub open spec fn wf(&self) -> bool {
        self.bases.wf() && self.ctes.wf()
    }

    /// `self` is `before` with what the nodes `ns` hold added to it.
    pub open spec fn extends(&self, before: &Findings, ns: Seq<JsonView>) -> bool {
        &&& self.bases@ == before.bases@.union(tables_in(ns))
        &&& self.ctes@ == before.ctes@.union(ctes_in(ns))
        &&& opt_text(self.bad_fn) == (match before.bad_fn {
            Some(f) => Some(f@),
            None => unsafe_in(ns),
        })
    }

    /// Nothing found yet.
    pub fn new() -> (r: Self)
        ensures
            r.wf(),
            r.bases@ == Set::<Seq<char>>::empty(),
            r.ctes@ == Set::<Seq<char>>::empty(),
            r.bad_fn is None,
    {
        Findings { bases: NameSet::new(), ctes: NameSet::new(), bad_fn: None }
    }
}

proof fn lemma_extends_concat(
    f: &Findings,
    g: &Findings,
    h: &Findings,
    a: Seq<JsonView>,
    b: Seq<JsonView>,
)
    requires
        g.extends(f, a),
        h.extends(g, b),
    ensures
        h.extends(f, a + b),
{
    lemma_tables_concat(a, b);
    lemma_unsafe_concat(a, b);
    assert(h.bases@ =~= f.bases@.union(tables_in(a + b)));
    assert(h.ctes@ =~= f.ctes@.union(ctes_in(a + b)));
}

/// Adds what one node itself holds, without what is below it.
fn note(v: &Json, found: &mut Findings)
    requires
        old(found).wf(),
    ensures
        final(found).wf(),
        final(found).extends(old(found), seq![v@]),
{
    let ghost ns = seq![v@];
    let ghost before = *found;
    proof {
        assert(ns.drop_last() =~= Seq::empty());
        assert(ns.last() == v@);
        assert(unsafe_in(Seq::empty()) is None);
    }
    if let Some(t) = v.text_at("type") {
        if same_text(t.as_str(), "BASE_TABLE") {
            if let Some(name) = v.text_at("table_name") {
                found.bases.insert(ascii_lower(name.as_str()));
            }
        } else if same_text(t.as_str(), "TABLE_FUNCTION") {
            if let Some(f) = v.get("function") {
                if let Some(name) = f.text_at("function_name") {
                    if found.bad_fn.is_none() && !is_safe_table_function(name.as_str()) {
                        found.bad_fn = Some(name.clone());
                    }
                }
            }
        }
    }
    proof {
        reveal_strlit("BASE_TABLE");
        reveal_strlit("TABLE_FUNCTION");
        assert("BASE_TABLE"@.len() != "TABLE_FUNCTION"@.len());
        assert forall|x: Seq<char>| #[trigger] tables_in(ns).contains(x) == (table_of(v@) == Some(
            x,
        )) by {
            if table_of(v@) == Some(x) {
                assert(table_of(ns[0]) == Some(x));
            }
        }
        assert(found.bases@ =~= before.bases@.union(tables_in(ns)));
        assert(opt_text(found.bad_fn) == (match before.bad_fn {
            Some(f) => Some(f@),
            None => unsafe_in(ns),
        }));
    }
    let ghost mid = *found;
    let ghost entries = cte_entries(v@);
    if let Some(c) = v.get("cte_map") {
        if let Some(m) = c.get("map") {
            if let Json::Array(list) = m {
                assert(entries.len() == list@.len());
                let mut i: usize = 0;
                while i < list.len()
                    invariant
                        found.wf(),
                        i <= list@.len(),
                        entries == cte_entries(v@),
                        entries.len() == list@.len(),
                        forall|j: int| 0 <= j < list@.len() ==> (#[trigger] list@[j])@ == entries[j],
                        found.bases == mid.bases,
                        found.bad_fn == mid.bad_fn,
                        forall|x: Seq<char>| #[trigger]
                            found.ctes@.contains(x) <==> (mid.ctes@.contains(x) || exists|j: int|
                                0 <= j < i && #[trigger] entry_declares(entries[j], x)),
                    decreases list@.len() - i,
                {
                    let ghost was = found.ctes@;
                    assert(list@[i as int]@ == entries[i as int]);
                    if let Some(k) = list[i].text_at("key") {
                        let name = ascii_lower(k.as_str());
                        assert(entry_declares(entries[i as int], name@));
                        found.ctes.insert(name);
                    }
                    proof {
                        let k = i as int;
                        assert forall|x: Seq<char>| #[trigger]
                            found.ctes@.contains(x) <==> (mid.ctes@.contains(x) || exists|j: int|
                                0 <= j < k + 1 && #[trigger] entry_declares(entries[j], x)) by {
                            assert(was.contains(x) <==> (mid.ctes@.contains(x) || exists|j: int|
                                0 <= j < k && #[trigger] entry_declares(entries[j], x)));
                            assert(found.ctes@.contains(x) <==> (was.contains(x)
                                || entry_declares(entries[k], x)));
                        }
                    }
                    i = i + 1;
                }
            }
        }
    }
    proof {
        assert forall|x: Seq<char>| #[trigger]
            found.ctes@.contains(x) == before.ctes@.union(ctes_in(ns)).contains(x) by {
            if declares(v@, x) {
                assert(declares(ns[0], x));
            }
            assert(ctes_in(ns).contains(x) <==> declares(v@, x));
        }
        assert(found.ctes@ =~= before.ctes@.union(ctes_in(ns)));
    }
}

/// Adds what the whole tree of `v` holds: the names of the tables it reads,
/// the common table expressions it declares, and the first table function it
/// calls that is not permitted.
pub fn walk(v: &Json, found: &mut Findings)
    requires
        old(found).wf(),
    ensures
        final(found).wf(),
        final(found).extends(old(found), nodes(v@)),
    decreases v,
{
    let ghost start = *found;
    note(v, found);
    let ghost head = seq![v@];
    match v {
        Json::Array(list) => {
            let ghost items = v@->Array_0;
            let mut i: usize = 0;
            proof {
                assert(items.take(0) =~= Seq::empty());
                assert(head + item_nodes(items.take(0)) =~= head);
            }
            while i < list.len()
                invariant
                    found.wf(),
                    i <= list@.len(),
                    items.len() == list@.len(),
                    forall|j: int| 0 <= j < list@.len() ==> (#[trigger] list@[j])@ == items[j],
                    found.extends(&start, head + item_nodes(items.take(i as int))),
                    decreases_to!(v => list@),
                decreases list@.len() - i,
            {
                let ghost before = *found;
                assert(decreases_to!(list@ => list@[i as int]));
                walk(&list[i], found);
                proof {
                    let k = i as int;
                    assert(list@[k]@ == items[k]);
                    assert(items.take(k + 1).drop_last() =~= items.take(k));
                    assert(items.take(k + 1).last() == items[k]);
                    lemma_extends_concat(
                        &start,
                        &before,
                        found,
                        head + item_nodes(items.take(k)),
                        nodes(items[k]),
                    );
                    assert(head + item_nodes(items.take(k)) + nodes(items[k]) =~= head
                        + item_nodes(items.take(k + 1)));
                }
                i = i + 1;
            }
            assert(items.take(list@.len() as int) =~= items);
        },
        Json::Object(list) => {
            let ghost ms = v@->Object_0;
            let mut i: usize = 0;
            proof {
                assert(ms.take(0) =~= Seq::empty());
                assert(head + member_nodes(ms.take(0)) =~= head);
            }
            while i < list.len()
                invariant
                    found.wf(),
                    i <= list@.len(),
                    ms.len() == list@.len(),
                    forall|j: int|
                        0 <= j < list@.len() ==> ((#[trigger] list@[j]).0@, list@[j].1@) == ms[j],
                    found.extends(&start, head + member_nodes(ms.take(i as int))),
                    decreases_to!(v => list@),
                decreases list@.len() - i,
            {
                let ghost before = *found;
                assert(decreases_to!(list@ => list@[i as int]));
                assert(decreases_to!(list@[i as int] => list@[i as int].1));
                walk(&list[i].1, found);
                proof {
                    let k = i as int;
                    assert((list@[k].0@, list@[k].1@) == ms[k]);
                    assert(ms.take(k + 1).drop_last() =~= ms.take(k));
                    assert(ms.take(k + 1).last() == ms[k]);
                    lemma_extends_concat(
                        &start,
                        &before,
                        found,
                        head + member_nodes(ms.take(k)),
                        nodes(ms[k].1),
                    );
                    assert(head + member_nodes(ms.take(k)) + nodes(ms[k].1) =~= head + member_nodes(
                        ms.take(k + 1),
                    ));
                }
                i = i + 1;
            }
            assert(ms.take(list@.len() as int) =~= ms);
        },
        _ => {},
    }
}

// ---- scopes ----

/// The common table expressions that a part of a query can see, by their names in
/// lower case.
pub struct Scope {
    /// Those that are in scope under their bare names.
    pub names: Set<Seq<char>>,
    /// Those whose declarations enclose the part.
    pub own: Set<Seq<char>>,
    /// The recursive ones in whose recurring part it stands. Their rows so far are in
    /// scope under the schema `recurring`.
    pub recurring: Set<Seq<char>>,
}

impl Scope {
    /// Nothing is in scope.
    pub open spec fn empty() -> Scope {
        Scope { names: Set::empty(), own: Set::empty(), recurring: Set::empty() }
    }
}

/// A value of the tree, with what is in scope there.
pub struct Site {
    pub node: JsonView,
    pub scope: Scope,
}

/// The names that some entries declare.
pub open spec fn declared(entries: Seq<JsonView>) -> Set<Seq<char>> {
    Set::new(
        |x: Seq<char>|
            exists|i: int| 0 <= i < entries.len() && #[trigger] entry_declares(entries[i], x),
    )
}

/// The name of a recursive expression, in lower case, if a node is one's query.
pub open spec fn recursive_name(v: JsonView) -> Option<Seq<char>> {
    if v.text_at("type"@) == Some("RECURSIVE_CTE_NODE"@) {
        match v.text_at("cte_name"@) {
            Some(n) => Some(lower(n)),
            None => None,
        }
    } else {
        None
    }
}

/// What is in scope below the member `key` of the object `v`, where `scope` is in
/// scope at `v`: also what `v` declares, and in the recurring part of a recursive
/// expression its own name, where its declaration encloses `v`.
pub open spec fn scope_below(v: JsonView, key: Seq<char>, scope: Scope) -> Scope {
    let names = scope.names.union(declared(cte_entries(v)));
    match recursive_name(v) {
        Some(n) => if key == "right"@ && scope.own.contains(n) {
            Scope {
                names: names.insert(n),
                own: scope.own,
                recurring: scope.recurring.insert(n),
            }
        } else {
            Scope { names, own: scope.own, recurring: scope.recurring }
        },
        None => Scope { names, own: scope.own, recurring: scope.recurring },
    }
}

/// What the last of some declarations sees, where `scope` is in scope at all of them:
/// also the earlier ones. Its own declaration encloses it.
pub open spec fn entry_scope(entries: Seq<JsonView>, scope: Scope) -> Scope {
    Scope {
        names: scope.names.union(declared(entries.drop_last())),
        own: scope.own.union(declared(seq![entries.last()])),
        recurring: scope.recurring,
    }
}

/// True if some member is named `key`.
pub open spec fn has_key(m: Seq<(Seq<char>, JsonView)>, key: Seq<char>) -> bool {
    exists|i: int| 0 <= i < m.len() && (#[trigger] m[i]).0 == key
}

/// True if the last of some members is named `key`, and none before it is.
pub open spec fn last_is_first(m: Seq<(Seq<char>, JsonView)>, key: Seq<char>) -> bool {
    m.last().0 == key && !has_key(m.drop_last(), key)
}

/// The sites of the tree of `v`, in the order of its nodes.
pub open spec fn sites(v: JsonView, scope: Scope) -> Seq<Site>
    decreases v,
{
    seq![Site { node: v, scope }] + (match v {
        JsonView::Array(items) => item_sites(items, scope),
        JsonView::Object(m) => member_sites(v, m, scope),
        _ => Seq::empty(),
    })
}

/// The sites of the items of an array.
pub open spec fn item_sites(
    items: Seq<JsonView>,
    scope: Scope,
) -> Seq<Site>
    decreases items,
{
    if items.len() == 0 {
        Seq::empty()
    } else {
        item_sites(items.drop_last(), scope) + sites(items.last(), scope)
    }
}

/// The sites of some members of the object `v`. The declarations themselves do not
/// see what they declare, except as [`entry_sites`] says.
pub open spec fn member_sites(
    v: JsonView,
    m: Seq<(Seq<char>, JsonView)>,
    scope: Scope,
) -> Seq<Site>
    decreases m,
{
    if m.len() == 0 {
        Seq::empty()
    } else {
        member_sites(v, m.drop_last(), scope) + (if last_is_first(m, "cte_map"@) {
            cte_sites(m.last().1, scope)
        } else {
            sites(m.last().1, scope_below(v, m.last().0, scope))
        })
    }
}

/// The sites of the declarations of a node.
pub open spec fn cte_sites(c: JsonView, scope: Scope) -> Seq<Site>
    decreases c,
{
    seq![Site { node: c, scope }] + (match c {
        JsonView::Array(items) => item_sites(items, scope),
        JsonView::Object(m) => cte_member_sites(m, scope),
        _ => Seq::empty(),
    })
}

/// The sites of some members of the declarations of a node.
pub open spec fn cte_member_sites(
    m: Seq<(Seq<char>, JsonView)>,
    scope: Scope,
) -> Seq<Site>
    decreases m,
{
    if m.len() == 0 {
        Seq::empty()
    } else {
        cte_member_sites(m.drop_last(), scope) + (match m.last().1 {
            JsonView::Array(entries) => if last_is_first(m, "map"@) {
                seq![Site { node: m.last().1, scope }] + entry_sites(entries, scope)
            } else {
                sites(m.last().1, scope)
            },
            _ => sites(m.last().1, scope),
        })
    }
}

/// The sites of some declarations: each sees the earlier ones, and itself where it is
/// recursive.
pub open spec fn entry_sites(
    entries: Seq<JsonView>,
    scope: Scope,
) -> Seq<Site>
    decreases entries,
{
    if entries.len() == 0 {
        Seq::empty()
    } else {
        entry_sites(entries.drop_last(), scope) + sites(entries.last(), entry_scope(entries, scope))
    }
}

/// True if the member `key` of a node is absent or an empty text.
pub open spec fn blank_at(v: JsonView, key: Seq<char>) -> bool {
    match v.get(key) {
        None => true,
        Some(JsonView::Text(s)) => s.len() == 0,
        Some(_) => false,
    }
}

/// True if a node names a table under the schema `recurring`.
pub open spec fn names_recurring(v: JsonView) -> bool {
    match v.text_at("schema_name"@) {
        Some(s) => lower(s) == "recurring"@,
        None => false,
    }
}

/// True if the table that is read at a site is a common table expression: its bare
/// name is in scope there, or its name under the schema `recurring`. A catalog in front
/// of it names another table.
pub open spec fn reads_cte(s: Site) -> bool {
    &&& table_of(s.node) is Some
    &&& blank_at(s.node, "catalog_name"@)
    &&& {
        let t = table_of(s.node)->0;
        ||| blank_at(s.node, "schema_name"@) && s.scope.names.contains(t)
        ||| names_recurring(s.node) && s.scope.recurring.contains(t)
    }
}

/// True if the table `x`, which is not in the catalog, is read at a site.
pub open spec fn reads_foreign(s: Site, x: Seq<char>) -> bool {
    table_of(s.node) == Some(x) && !reads_cte(s) && !allowed(x)
}

/// The tables outside the catalog that are read at some sites.
pub open spec fn foreign_at(ss: Seq<Site>) -> Set<Seq<char>> {
    Set::new(|x: Seq<char>| exists|i: int| 0 <= i < ss.len() && #[trigger] reads_foreign(ss[i], x))
}

/// The tables outside the catalog that the tree of `v` reads, where `scope` is in
/// scope at `v`.
pub open spec fn foreign_in(v: JsonView, scope: Scope) -> Set<Seq<char>> {
    foreign_at(sites(v, scope))
}

proof fn lemma_foreign_concat(a: Seq<Site>, b: Seq<Site>)
    ensures
        foreign_at(a + b) == foreign_at(a).union(foreign_at(b)),
{
    let c = a + b;
    assert forall|x: Seq<char>| #[trigger] foreign_at(c).contains(x) == foreign_at(a).union(
        foreign_at(b),
    ).contains(x) by {
        if foreign_at(a).contains(x) {
            let i = choose|i: int| 0 <= i < a.len() && #[trigger] reads_foreign(a[i], x);
            assert(reads_foreign(c[i], x));
        }
        if foreign_at(b).contains(x) {
            let i = choose|i: int| 0 <= i < b.len() && #[trigger] reads_foreign(b[i], x);
            assert(reads_foreign(c[a.len() + i], x));
        }
        if foreign_at(c).contains(x) {
            let i = choose|i: int| 0 <= i < c.len() && #[trigger] reads_foreign(c[i], x);
            if i < a.len() {
                assert(reads_foreign(a[i], x));
            } else {
                assert(reads_foreign(b[i - a.len()], x));
            }
        }
    }
    assert(foreign_at(c) =~= foreign_at(a).union(foreign_at(b)));
}

/// `after` is `before` with the foreign tables of `ss` added to it.
spec fn adds(after: Set<Seq<char>>, before: Set<Seq<char>>, ss: Seq<Site>) -> bool {
    after == before.union(foreign_at(ss))
}

proof fn lemma_adds_concat(
    f: Set<Seq<char>>,
    g: Set<Seq<char>>,
    h: Set<Seq<char>>,
    a: Seq<Site>,
    b: Seq<Site>,
)
    requires
        adds(g, f, a),
        adds(h, g, b),
    ensures
        adds(h, f, a + b),
{
    lemma_foreign_concat(a, b);
    assert(h =~= f.union(foreign_at(a + b)));
}

fn is_blank_at(v: &Json, key: &str) -> (r: bool)
    ensures
        r == blank_at(v@, key@),
{
    match v.get(key) {
        None => true,
        Some(Json::Text(s)) => s.as_str().is_empty(),
        Some(_) => false,
    }
}

/// What a part of a query can see.
pub struct Names {
    pub names: NameSet,
    pub own: NameSet,
    pub recurring: NameSet,
}

impl Names {
    /// The mathematical value.
    pub open spec fn view(&self) -> Scope {
        Scope { names: self.names@, own: self.own@, recurring: self.recurring@ }
    }

    /// The sets are well formed.
    pub open spec fn wf(&self) -> bool {
        self.names.wf() && self.own.wf() && self.recurring.wf()
    }

    /// Nothing is in scope.
    pub fn new() -> (r: Self)
        ensures
            r.wf(),
            r@ == Scope::empty(),
    {
        Names { names: NameSet::new(), own: NameSet::new(), recurring: NameSet::new() }
    }

    fn copy(&self) -> (r: Self)
        requires
            self.wf(),
        ensures
            r.wf(),
            r@ == self@,
    {
        Names {
            names: self.names.copy(),
            own: self.own.copy(),
            recurring: self.recurring.copy(),
        }
    }
}

fn is_recurring(v: &Json) -> (r: bool)
    ensures
        r == names_recurring(v@),
{
    match v.text_at("schema_name") {
        Some(s) => same_text(ascii_lower(s.as_str()).as_str(), "recurring"),
        None => false,
    }
}

/// The table that a node reads, in lower case.
fn table_name(v: &Json) -> (r: Option<String>)
    ensures
        opt_text(r) == table_of(v@),
{
    match v.text_at("type") {
        Some(t) => if same_text(t.as_str(), "BASE_TABLE") {
            match v.text_at("table_name") {
                Some(name) => Some(ascii_lower(name.as_str())),
                None => None,
            }
        } else {
            None
        },
        None => None,
    }
}

/// Adds the table that a node itself reads, if it is foreign.
fn note_foreign(v: &Json, scope: &Names, found: &mut NameSet)
    requires
        scope.wf(),
        old(found).wf(),
    ensures
        final(found).wf(),
        adds(final(found)@, old(found)@, seq![(Site { node: v@, scope: scope@ })]),
{
    let ghost before = found@;
    let ghost site = Site { node: v@, scope: scope@ };
    let ghost ss = seq![site];
    proof {
        assert forall|x: Seq<char>| #[trigger] foreign_at(ss).contains(x) == reads_foreign(
            site,
            x,
        ) by {
            if reads_foreign(site, x) {
                assert(reads_foreign(ss[0], x));
            }
        }
    }
    if let Some(name) = table_name(v) {
        let cte = is_blank_at(v, "catalog_name") && (is_blank_at(v, "schema_name")
            && scope.names.contains(name.as_str()) || is_recurring(v)
            && scope.recurring.contains(name.as_str()));
        if !cte && !is_allowed_table(name.as_str()) {
            found.insert(name);
        }
    }
    assert(found@ =~= before.union(foreign_at(ss)));
}

/// Adds the name that an entry declares, if it declares one.
fn add_declared(entry: &Json, names: &mut NameSet)
    requires
        old(names).wf(),
    ensures
        final(names).wf(),
        forall|x: Seq<char>| #[trigger]
            final(names)@.contains(x) <==> (old(names)@.contains(x) || entry_declares(entry@, x)),
{
    if let Some(k) = entry.text_at("key") {
        names.insert(ascii_lower(k.as_str()));
    }
}

/// Some names, and those that a node declares.
fn with_declared(v: &Json, scope: &NameSet) -> (r: NameSet)
    requires
        scope.wf(),
    ensures
        r.wf(),
        r@ == scope@.union(declared(cte_entries(v@))),
{
    let mut r = scope.copy();
    let ghost entries = cte_entries(v@);
    if let Some(c) = v.get("cte_map") {
        if let Some(Json::Array(list)) = c.get("map") {
            let mut i: usize = 0;
            while i < list.len()
                invariant
                    r.wf(),
                    i <= list@.len(),
                    entries.len() == list@.len(),
                    forall|j: int| 0 <= j < list@.len() ==> (#[trigger] list@[j])@ == entries[j],
                    forall|x: Seq<char>| #[trigger]
                        r@.contains(x) <==> (scope@.contains(x) || exists|j: int|
                            0 <= j < i && #[trigger] entry_declares(entries[j], x)),
                decreases list@.len() - i,
            {
                let ghost was = r@;
                add_declared(&list[i], &mut r);
                proof {
                    let k = i as int;
                    assert(list@[k]@ == entries[k]);
                    assert forall|x: Seq<char>| #[trigger]
                        r@.contains(x) <==> (scope@.contains(x) || exists|j: int|
                            0 <= j < k + 1 && #[trigger] entry_declares(entries[j], x)) by {
                        assert(was.contains(x) <==> (scope@.contains(x) || exists|j: int|
                            0 <= j < k && #[trigger] entry_declares(entries[j], x)));
                    }
                }
                i = i + 1;
            }
        }
    }
    assert(r@ =~= scope@.union(declared(entries)));
    r
}

/// The name of a recursive expression, if a node is one's query.
fn own_name(v: &Json) -> (r: Option<String>)
    ensures
        opt_text(r) == recursive_name(v@),
{
    match v.text_at("type") {
        Some(t) => if same_text(t.as_str(), "RECURSIVE_CTE_NODE") {
            match v.text_at("cte_name") {
                Some(n) => Some(ascii_lower(n.as_str())),
                None => None,
            }
        } else {
            None
        },
        None => None,
    }
}

/// Adds the foreign tables that the tree of `v` reads, where `scope` is in scope at
/// `v`.
pub fn find_foreign(v: &Json, scope: &Names, found: &mut NameSet)
    requires
        scope.wf(),
        old(found).wf(),
    ensures
        final(found).wf(),
        final(found)@ == old(found)@.union(foreign_in(v@, scope@)),
    decreases v, 1int,
{
    let ghost start = found@;
    note_foreign(v, scope, found);
    let ghost head = seq![(Site { node: v@, scope: scope@ })];
    match v {
        Json::Array(list) => {
            let ghost items = v@->Array_0;
            let mut i: usize = 0;
            proof {
                assert(items.take(0) =~= Seq::empty());
                assert(head + item_sites(items.take(0), scope@) =~= head);
            }
            while i < list.len()
                invariant
                    scope.wf(),
                    found.wf(),
                    i <= list@.len(),
                    items.len() == list@.len(),
                    forall|j: int| 0 <= j < list@.len() ==> (#[trigger] list@[j])@ == items[j],
                    adds(found@, start, head + item_sites(items.take(i as int), scope@)),
                    decreases_to!(v => list@),
                decreases list@.len() - i,
            {
                let ghost before = found@;
                assert(decreases_to!(list@ => list@[i as int]));
                find_foreign(&list[i], scope, found);
                proof {
                    let k = i as int;
                    assert(list@[k]@ == items[k]);
                    assert(items.take(k + 1).drop_last() =~= items.take(k));
                    assert(items.take(k + 1).last() == items[k]);
                    let a = head + item_sites(items.take(k), scope@);
                    let b = sites(items[k], scope@);
                    lemma_adds_concat(start, before, found@, a, b);
                    assert(a + b =~= head + item_sites(items.take(k + 1), scope@));
                }
                i = i + 1;
            }
            assert(items.take(list@.len() as int) =~= items);
        },
        Json::Object(list) => {
            let ghost ms = v@->Object_0;
            let inner = Names {
                names: with_declared(v, &scope.names),
                own: scope.own.copy(),
                recurring: scope.recurring.copy(),
            };
            let mut right = inner.copy();
            if let Some(n) = own_name(v) {
                if scope.own.contains(n.as_str()) {
                    right.names.insert(n.clone());
                    right.recurring.insert(n);
                }
            }
            let ghost here = v@;
            let mut seen = false;
            let mut i: usize = 0;
            proof {
                assert(ms.take(0) =~= Seq::empty());
                assert(head + member_sites(here, ms.take(0), scope@) =~= head);
            }
            while i < list.len()
                invariant
                    scope.wf(),
                    inner.wf(),
                    right.wf(),
                    found.wf(),
                    here == v@,
                    seen == has_key(ms.take(i as int), "cte_map"@),
                    forall|k: Seq<char>|
                        k == "right"@ ==> right@ == #[trigger] scope_below(here, k, scope@),
                    forall|k: Seq<char>|
                        k != "right"@ ==> inner@ == #[trigger] scope_below(here, k, scope@),
                    i <= list@.len(),
                    ms.len() == list@.len(),
                    forall|j: int|
                        0 <= j < list@.len() ==> ((#[trigger] list@[j]).0@, list@[j].1@) == ms[j],
                    adds(found@, start, head + member_sites(here, ms.take(i as int), scope@)),
                    decreases_to!(v => list@),
                decreases list@.len() - i,
            {
                let ghost before = found@;
                assert(decreases_to!(list@ => list@[i as int]));
                assert(decreases_to!(list@[i as int] => list@[i as int].1));
                let ghost w = list@[i as int].1@;
                let ghost key = list@[i as int].0@;
                let ghost b = if key == "cte_map"@ && !seen {
                    cte_sites(w, scope@)
                } else {
                    sites(w, scope_below(here, key, scope@))
                };
                proof {
                    lemma_has_key_push(ms, i as int, "cte_map"@);
                }
                if !seen && same_text(list[i].0.as_str(), "cte_map") {
                    seen = true;
                    foreign_in_ctes(&list[i].1, scope, found);
                } else if same_text(list[i].0.as_str(), "right") {
                    find_foreign(&list[i].1, &right, found);
                } else {
                    find_foreign(&list[i].1, &inner, found);
                }
                proof {
                    let k = i as int;
                    assert((list@[k].0@, list@[k].1@) == ms[k]);
                    assert(ms.take(k + 1).drop_last() =~= ms.take(k));
                    assert(ms.take(k + 1).last() == ms[k]);
                    let a = head + member_sites(here, ms.take(k), scope@);
                    lemma_adds_concat(start, before, found@, a, b);
                    assert(a + b =~= head + member_sites(here, ms.take(k + 1), scope@));
                }
                i = i + 1;
            }
            assert(ms.take(list@.len() as int) =~= ms);
        },
        _ => {
            assert(sites(v@, scope@) =~= head);
        },
    }
}

/// Adds the foreign tables that the declarations of a node read.
fn foreign_in_ctes(c: &Json, scope: &Names, found: &mut NameSet)
    requires
        scope.wf(),
        old(found).wf(),
    ensures
        final(found).wf(),
        adds(final(found)@, old(found)@, cte_sites(c@, scope@)),
    decreases c, 0int,
{
    let ghost start = found@;
    let ghost head = seq![(Site { node: c@, scope: scope@ })];
    note_foreign(c, scope, found);
    match c {
        Json::Array(list) => {
            let ghost items = c@->Array_0;
            let mut i: usize = 0;
            proof {
                assert(items.take(0) =~= Seq::empty());
                assert(head + item_sites(items.take(0), scope@) =~= head);
            }
            while i < list.len()
                invariant
                    scope.wf(),
                    found.wf(),
                    i <= list@.len(),
                    items.len() == list@.len(),
                    forall|j: int| 0 <= j < list@.len() ==> (#[trigger] list@[j])@ == items[j],
                    adds(found@, start, head + item_sites(items.take(i as int), scope@)),
                    decreases_to!(c => list@),
                decreases list@.len() - i,
            {
                let ghost before = found@;
                assert(decreases_to!(list@ => list@[i as int]));
                find_foreign(&list[i], scope, found);
                proof {
                    let k = i as int;
                    assert(list@[k]@ == items[k]);
                    assert(items.take(k + 1).drop_last() =~= items.take(k));
                    assert(items.take(k + 1).last() == items[k]);
                    let a = head + item_sites(items.take(k), scope@);
                    let b = sites(items[k], scope@);
                    lemma_adds_concat(start, before, found@, a, b);
                    assert(a + b =~= head + item_sites(items.take(k + 1), scope@));
                }
                i = i + 1;
            }
            assert(items.take(list@.len() as int) =~= items);
        },
        Json::Object(list) => {
            let ghost ms = c@->Object_0;
            let mut seen = false;
            let mut i: usize = 0;
            proof {
                assert(ms.take(0) =~= Seq::empty());
                assert(head + cte_member_sites(ms.take(0), scope@) =~= head);
            }
            while i < list.len()
                invariant
                    scope.wf(),
                    found.wf(),
                    seen == has_key(ms.take(i as int), "map"@),
                    i <= list@.len(),
                    ms.len() == list@.len(),
                    forall|j: int|
                        0 <= j < list@.len() ==> ((#[trigger] list@[j]).0@, list@[j].1@) == ms[j],
                    adds(found@, start, head + cte_member_sites(ms.take(i as int), scope@)),
                    decreases_to!(c => list@),
                decreases list@.len() - i,
            {
                let ghost before = found@;
                assert(decreases_to!(list@ => list@[i as int]));
                assert(decreases_to!(list@[i as int] => list@[i as int].1));
                let ghost w = list@[i as int].1@;
                let ghost key = list@[i as int].0@;
                let ghost b = if w is Array && key == "map"@ && !seen {
                    seq![(Site { node: w, scope: scope@ })] + entry_sites(w->Array_0, scope@)
                } else {
                    sites(w, scope@)
                };
                proof {
                    lemma_has_key_push(ms, i as int, "map"@);
                }
                if !seen && same_text(list[i].0.as_str(), "map") {
                    seen = true;
                    match &list[i].1 {
                        Json::Array(_) => {
                            foreign_in_entries(&list[i].1, scope, found);
                        },
                        _ => {
                            find_foreign(&list[i].1, scope, found);
                        },
                    }
                } else {
                    find_foreign(&list[i].1, scope, found);
                }
                proof {
                    let k = i as int;
                    assert((list@[k].0@, list@[k].1@) == ms[k]);
                    assert(ms.take(k + 1).drop_last() =~= ms.take(k));
                    assert(ms.take(k + 1).last() == ms[k]);
                    let a = head + cte_member_sites(ms.take(k), scope@);
                    lemma_adds_concat(start, before, found@, a, b);
                    assert(a + b =~= head + cte_member_sites(ms.take(k + 1), scope@));
                }
                i = i + 1;
            }
            assert(ms.take(list@.len() as int) =~= ms);
        },
        _ => {
            assert(cte_sites(c@, scope@) =~= head);
        },
    }
}

/// Adds the foreign tables that a list of declarations reads, where each declaration
/// sees the earlier ones.
fn foreign_in_entries(list: &Json, scope: &Names, found: &mut NameSet)
    requires
        scope.wf(),
        old(found).wf(),
        list@ is Array,
    ensures
        final(found).wf(),
        adds(
            final(found)@,
            old(found)@,
            seq![(Site { node: list@, scope: scope@ })] + entry_sites(list@->Array_0, scope@),
        ),
    decreases list, 0int,
{
    let ghost start = found@;
    let ghost head = seq![(Site { node: list@, scope: scope@ })];
    note_foreign(list, scope, found);
    match list {
        Json::Array(entries) => {
            let ghost es = list@->Array_0;
            let mut seen = scope.names.copy();
            let mut i: usize = 0;
            proof {
                assert(es.take(0) =~= Seq::empty());
                assert(head + entry_sites(es.take(0), scope@) =~= head);
                assert(seen@ =~= scope@.names.union(declared(es.take(0))));
            }
            while i < entries.len()
                invariant
                    scope.wf(),
                    seen.wf(),
                    found.wf(),
                    i <= entries@.len(),
                    es.len() == entries@.len(),
                    forall|j: int| 0 <= j < entries@.len() ==> (#[trigger] entries@[j])@ == es[j],
                    seen@ == scope@.names.union(declared(es.take(i as int))),
                    adds(found@, start, head + entry_sites(es.take(i as int), scope@)),
                    decreases_to!(list => entries@),
                decreases entries@.len() - i,
            {
                let ghost before = found@;
                assert(decreases_to!(entries@ => entries@[i as int]));
                let mut own = scope.own.copy();
                add_declared(&entries[i], &mut own);
                let here = Names { names: seen.copy(), own, recurring: scope.recurring.copy() };
                find_foreign(&entries[i], &here, found);
                add_declared(&entries[i], &mut seen);
                proof {
                    let k = i as int;
                    assert(entries@[k]@ == es[k]);
                    assert(es.take(k + 1).drop_last() =~= es.take(k));
                    assert(es.take(k + 1).last() == es[k]);
                    let a = head + entry_sites(es.take(k), scope@);
                    lemma_declared_one(es[k]);
                    assert(here@.own =~= scope@.own.union(declared(seq![es[k]])));
                    assert(here@ == entry_scope(es.take(k + 1), scope@));
                    let b = sites(es[k], here@);
                    lemma_adds_concat(start, before, found@, a, b);
                    assert(a + b =~= head + entry_sites(es.take(k + 1), scope@));
                    lemma_declared_push(es, k);
                    assert(seen@ =~= scope@.names.union(declared(es.take(k + 1))));
                }
                i = i + 1;
            }
            assert(es.take(entries@.len() as int) =~= es);
        },
        _ => {},
    }
}

proof fn lemma_has_key_push(m: Seq<(Seq<char>, JsonView)>, k: int, key: Seq<char>)
    requires
        0 <= k < m.len(),
    ensures
        has_key(m.take(k + 1), key) == (has_key(m.take(k), key) || m[k].0 == key),
        last_is_first(m.take(k + 1), key) == (m[k].0 == key && !has_key(m.take(k), key)),
{
    let a = m.take(k);
    let b = m.take(k + 1);
    assert(b.drop_last() =~= a);
    if has_key(a, key) {
        let i = choose|i: int| 0 <= i < a.len() && (#[trigger] a[i]).0 == key;
        assert(b[i].0 == key);
    }
    if m[k].0 == key {
        assert(b[k].0 == key);
    }
    if has_key(b, key) {
        let i = choose|i: int| 0 <= i < b.len() && (#[trigger] b[i]).0 == key;
        if i < k {
            assert(a[i].0 == key);
        }
    }
}

proof fn lemma_declared_one(e: JsonView)
    ensures
        forall|x: Seq<char>| #[trigger]
            declared(seq![e]).contains(x) <==> entry_declares(e, x),
{
    let es = seq![e];
    assert forall|x: Seq<char>| #[trigger] declared(es).contains(x) <==> entry_declares(e, x) by {
        if entry_declares(e, x) {
            assert(entry_declares(es[0], x));
        }
    }
}

proof fn lemma_declared_push(es: Seq<JsonView>, k: int)
    requires
        0 <= k < es.len(),
    ensures
        forall|x: Seq<char>| #[trigger]
            declared(es.take(k + 1)).contains(x) <==> (declared(es.take(k)).contains(x)
                || entry_declares(es[k], x)),
{
    let a = es.take(k);
    let b = es.take(k + 1);
    assert forall|x: Seq<char>| #[trigger] declared(b).contains(x) <==> (declared(a).contains(x)
        || entry_declares(es[k], x)) by {
        if declared(a).contains(x) {
            let i = choose|i: int| 0 <= i < a.len() && #[trigger] entry_declares(a[i], x);
            assert(entry_declares(b[i], x));
        }
        if entry_declares(es[k], x) {
            assert(entry_declares(b[k], x));
        }
        if declared(b).contains(x) {
            let i = choose|i: int| 0 <= i < b.len() && #[trigger] entry_declares(b[i], x);
            if i < k {
                assert(entry_declares(a[i], x));
            }
        }
    }
}

// ---- the verdict ----

/// The statements of a parsed query.
pub open spec fn statements(ast: JsonView) -> Option<Seq<JsonView>> {
    match ast.get("statements"@) {
        Some(s) => s.items(),
        None => None,
    }
}

/// The reason that the parser gives for refusing a query.
pub open spec fn parser_message(ast: JsonView) -> Seq<char> {
    match ast.text_at("error_message"@) {
        Some(m) => m,
        None => "invalid SQL"@,
    }
}

/// The tables that a query reads, that are not common table expressions in scope
/// where they are read, and that are not in the catalog.
pub open spec fn refused(ast: JsonView) -> Set<Seq<char>> {
    foreign_in(ast, Scope::empty())
}

/// `t` is the first text of `s` in the order of texts.
pub open spec fn is_least(s: Set<Seq<char>>, t: Seq<char>) -> bool {
    s.contains(t) && forall|x: Seq<char>| #[trigger] s.contains(x) ==> x == t || less(t, x)
}

/// `r` is the guard's answer to a parsed query.
pub open spec fn vetted(ast: JsonView, r: Result<(), EngineErrorView>) -> bool {
    if ast.get("error"@) == Some(JsonView::Bool(true)) {
        r == Err::<(), _>(EngineErrorView::NotSelect(parser_message(ast)))
    } else {
        match statements(ast) {
            None => r == Err::<(), _>(EngineErrorView::Unparsed),
            Some(st) => if st.len() != 1 {
                r == Err::<(), _>(EngineErrorView::StatementCount(st.len()))
            } else {
                match unsafe_in(nodes(ast)) {
                    Some(f) => r == Err::<(), _>(EngineErrorView::TableFunction(f)),
                    None => match r {
                        Ok(_) => forall|x: Seq<char>| !(#[trigger] refused(ast).contains(x)),
                        Err(EngineErrorView::Table(t)) => is_least(refused(ast), t),
                        Err(_) => false,
                    },
                }
            },
        }
    }
}

/// An outcome with its error by value.
pub open spec fn outcome(r: Result<(), EngineError>) -> Result<(), EngineErrorView> {
    match r {
        Ok(_) => Ok(()),
        Err(e) => Err(e@),
    }
}

/// Decides whether a parsed query may run.
pub fn validate_ast(ast: &Json) -> (r: Result<(), EngineError>)
    ensures
        vetted(ast@, outcome(r)),
{
    if let Some(Json::Bool(b)) = ast.get("error") {
        if *b {
            let msg = match ast.text_at("error_message") {
                Some(m) => m.clone(),
                None => "invalid SQL".to_string(),
            };
            return Err(EngineError::NotSelect(msg));
        }
    }
    let count: usize = match ast.get("statements") {
        Some(Json::Array(st)) => st.len(),
        _ => {
            return Err(EngineError::Unparsed);
        },
    };
    if count != 1 {
        return Err(EngineError::StatementCount(count));
    }
    let mut found = Findings::new();
    walk(ast, &mut found);
    if let Some(f) = found.bad_fn {
        return Err(EngineError::TableFunction(f));
    }
    let mut foreign = NameSet::new();
    find_foreign(ast, &Names::new(), &mut foreign);
    assert(foreign@ =~= refused(ast@));
    let ghost order = foreign.listed();
    if foreign.len() > 0 {
        let t = foreign.name(0);
        proof {
            assert(order.contains(t@));
            assert forall|x: Seq<char>| #[trigger] refused(ast@).contains(x) implies x == t@
                || less(t@, x) by {
                assert(order.contains(x));
                let k = choose|k: int| 0 <= k < order.len() && order[k] == x;
                if k > 0 {
                    assert(less(order[0], order[k]));
                }
            }
        }
        return Err(EngineError::Table(t.to_string()));
    }
    assert forall|x: Seq<char>| !(#[trigger] refused(ast@).contains(x)) by {
        if refused(ast@).contains(x) {
            assert(order.contains(x));
        }
    }
    Ok(())
}

/// `r` is the guard's answer to a query, from the bytes that the engine's parser
/// answered.
pub open spec fn judged(answer: Option<Seq<u8>>, r: Result<(), EngineErrorView>) -> bool {
    match answer {
        None => r == Err::<(), _>(EngineErrorView::ParseQuery),
        Some(bytes) => match json_document(bytes) {
            None => r == Err::<(), _>(EngineErrorView::ReadAst),
            Some(ast) => vetted(ast, r),
        },
    }
}

/// Decides whether a query may run, from what the engine's parser answered to
/// the probe for it; `None` if the engine could not run the probe.
pub fn validate(answer: Option<&str>) -> (r: Result<(), EngineError>)
    ensures
        judged(
            match answer {
                None => None,
                Some(text) => Some(text.spec_bytes()),
            },
            outcome(r),
        ),
{
    match answer {
        None => Err(EngineError::ParseQuery),
        Some(text) => match parse_json(text.as_bytes()) {
            None => Err(EngineError::ReadAst),
            Some(ast) => validate_ast(&ast),
        },
    }
}

// ---- laws ----

/// The values directly below a value.
pub open spec fn child(v: JsonView, i: int) -> Option<JsonView> {
    match v {
        JsonView::Array(items) => if 0 <= i < items.len() {
            Some(items[i])
        } else {
            None
        },
        JsonView::Object(m) => if 0 <= i < m.len() {
            Some(m[i].1)
        } else {
            None
        },
        _ => None,
    }
}

proof fn lemma_item_nodes(items: Seq<JsonView>, k: int)
    requires
        0 <= k < items.len(),
    ensures
        forall|x: JsonView| nodes(items[k]).contains(x) ==> #[trigger] item_nodes(items).contains(x),
    decreases items.len(),
{
    let init = item_nodes(items.drop_last());
    let tail = nodes(items.last());
    if k < items.len() - 1 {
        lemma_item_nodes(items.drop_last(), k);
    }
    assert forall|x: JsonView| nodes(items[k]).contains(x) implies #[trigger] item_nodes(
        items,
    ).contains(x) by {
        if k < items.len() - 1 {
            assert(items.drop_last()[k] == items[k]);
            assert(init.contains(x));
            let j = choose|j: int| 0 <= j < init.len() && init[j] == x;
            assert((init + tail)[j] == x);
        } else {
            let j = choose|j: int| 0 <= j < tail.len() && tail[j] == x;
            assert((init + tail)[init.len() + j] == x);
        }
    }
}

proof fn lemma_member_nodes(m: Seq<(Seq<char>, JsonView)>, k: int)
    requires
        0 <= k < m.len(),
    ensures
        forall|x: JsonView| nodes(m[k].1).contains(x) ==> #[trigger] member_nodes(m).contains(x),
    decreases m.len(),
{
    let init = member_nodes(m.drop_last());
    let tail = nodes(m.last().1);
    if k < m.len() - 1 {
        lemma_member_nodes(m.drop_last(), k);
    }
    assert forall|x: JsonView| nodes(m[k].1).contains(x) implies #[trigger] member_nodes(m).contains(
        x,
    ) by {
        if k < m.len() - 1 {
            assert(m.drop_last()[k] == m[k]);
            assert(init.contains(x));
            let j = choose|j: int| 0 <= j < init.len() && init[j] == x;
            assert((init + tail)[j] == x);
        } else {
            let j = choose|j: int| 0 <= j < tail.len() && tail[j] == x;
            assert((init + tail)[init.len() + j] == x);
        }
    }
}

/// The guard looks at the whole query: the tree's root is among the nodes, and
/// so is everything in the tree of anything directly below it.
pub proof fn law_nodes_cover_the_tree(v: JsonView, i: int, x: JsonView)
    requires
        child(v, i) is Some,
        nodes(child(v, i)->0).contains(x),
    ensures
        nodes(v).contains(v),
        nodes(v).contains(x),
{
    assert(nodes(v)[0] == v);
    match v {
        JsonView::Array(items) => {
            lemma_item_nodes(items, i);
            let rest = item_nodes(items);
            assert(rest.contains(x));
            let j = choose|j: int| 0 <= j < rest.len() && rest[j] == x;
            assert(nodes(v)[1 + j] == x);
        },
        JsonView::Object(m) => {
            lemma_member_nodes(m, i);
            let rest = member_nodes(m);
            assert(rest.contains(x));
            let j = choose|j: int| 0 <= j < rest.len() && rest[j] == x;
            assert(nodes(v)[1 + j] == x);
        },
        _ => {},
    }
}

proof fn lemma_unsafe_none(ns: Seq<JsonView>, i: int)
    requires
        unsafe_in(ns) is None,
        0 <= i < ns.len(),
    ensures
        function_of(ns[i]) is Some ==> safe_function(function_of(ns[i])->0),
    decreases ns.len(),
{
    if i < ns.len() - 1 {
        lemma_unsafe_none(ns.drop_last(), i);
        assert(ns.drop_last()[i] == ns[i]);
    }
}

/// The scoped pass looks at the same nodes as the walk, in the same order.
pub proof fn law_every_node_has_its_site(v: JsonView, scope: Scope)
    ensures
        sites(v, scope).len() == nodes(v).len(),
        forall|i: int| 0 <= i < nodes(v).len() ==> (#[trigger] sites(v, scope)[i]).node == nodes(v)[i],
    decreases v, 2int,
{
    match v {
        JsonView::Array(items) => {
            lemma_item_sites(items, scope);
        },
        JsonView::Object(m) => {
            lemma_member_sites(v, m, scope);
        },
        _ => {},
    }
}

/// The nodes of some sites.
spec fn site_nodes(ss: Seq<Site>) -> Seq<JsonView> {
    ss.map_values(|s: Site| s.node)
}

proof fn lemma_sites(v: JsonView, scope: Scope)
    ensures
        site_nodes(sites(v, scope)) == nodes(v),
    decreases v, 3int,
{
    law_every_node_has_its_site(v, scope);
    assert(site_nodes(sites(v, scope)) =~= nodes(v));
}

proof fn lemma_item_sites(items: Seq<JsonView>, scope: Scope)
    ensures
        site_nodes(item_sites(items, scope)) == item_nodes(items),
    decreases items, 1int,
{
    if items.len() > 0 {
        lemma_item_sites(items.drop_last(), scope);
        lemma_sites(items.last(), scope);
        assert(site_nodes(item_sites(items, scope)) =~= site_nodes(
            item_sites(items.drop_last(), scope),
        ) + site_nodes(sites(items.last(), scope)));
    } else {
        assert(site_nodes(item_sites(items, scope)) =~= Seq::empty());
    }
}

proof fn lemma_member_sites(v: JsonView, m: Seq<(Seq<char>, JsonView)>, scope: Scope)
    ensures
        site_nodes(member_sites(v, m, scope)) == member_nodes(m),
    decreases m, 1int,
{
    if m.len() > 0 {
        lemma_member_sites(v, m.drop_last(), scope);
        let w = m.last().1;
        let b = if last_is_first(m, "cte_map"@) {
            cte_sites(w, scope)
        } else {
            sites(w, scope_below(v, m.last().0, scope))
        };
        lemma_cte_sites(w, scope);
        lemma_sites(w, scope_below(v, m.last().0, scope));
        assert(site_nodes(member_sites(v, m, scope)) =~= site_nodes(
            member_sites(v, m.drop_last(), scope),
        ) + site_nodes(b));
    } else {
        assert(site_nodes(member_sites(v, m, scope)) =~= Seq::empty());
    }
}

proof fn lemma_cte_sites(c: JsonView, scope: Scope)
    ensures
        site_nodes(cte_sites(c, scope)) == nodes(c),
    decreases c, 2int,
{
    match c {
        JsonView::Array(items) => {
            lemma_item_sites(items, scope);
            assert(site_nodes(cte_sites(c, scope)) =~= seq![c] + site_nodes(
                item_sites(items, scope),
            ));
        },
        JsonView::Object(m) => {
            lemma_cte_member_sites(m, scope);
            assert(site_nodes(cte_sites(c, scope)) =~= seq![c] + site_nodes(
                cte_member_sites(m, scope),
            ));
        },
        _ => {
            assert(site_nodes(cte_sites(c, scope)) =~= seq![c]);
        },
    }
}

proof fn lemma_cte_member_sites(m: Seq<(Seq<char>, JsonView)>, scope: Scope)
    ensures
        site_nodes(cte_member_sites(m, scope)) == member_nodes(m),
    decreases m, 1int,
{
    if m.len() > 0 {
        let w = m.last().1;
        lemma_cte_member_sites(m.drop_last(), scope);
        lemma_sites(w, scope);
        let rest = site_nodes(cte_member_sites(m.drop_last(), scope));
        match w {
            JsonView::Array(entries) => {
                lemma_entry_sites(entries, scope);
                if last_is_first(m, "map"@) {
                    let b = seq![Site { node: w, scope }] + entry_sites(entries, scope);
                    assert(site_nodes(b) =~= seq![w] + site_nodes(entry_sites(entries, scope)));
                    assert(site_nodes(cte_member_sites(m, scope)) =~= rest + site_nodes(b));
                } else {
                    assert(site_nodes(cte_member_sites(m, scope)) =~= rest + site_nodes(
                        sites(w, scope),
                    ));
                }
            },
            _ => {
                assert(site_nodes(cte_member_sites(m, scope)) =~= rest + site_nodes(
                    sites(w, scope),
                ));
            },
        }
    } else {
        assert(site_nodes(cte_member_sites(m, scope)) =~= Seq::empty());
    }
}

proof fn lemma_entry_sites(entries: Seq<JsonView>, scope: Scope)
    ensures
        site_nodes(entry_sites(entries, scope)) == item_nodes(entries),
    decreases entries, 1int,
{
    if entries.len() > 0 {
        let inner = entry_scope(entries, scope);
        lemma_entry_sites(entries.drop_last(), scope);
        lemma_sites(entries.last(), inner);
        assert(site_nodes(entry_sites(entries, scope)) =~= site_nodes(
            entry_sites(entries.drop_last(), scope),
        ) + site_nodes(sites(entries.last(), inner)));
    } else {
        assert(site_nodes(entry_sites(entries, scope)) =~= Seq::empty());
    }
}

/// A query that passes the guard is one statement, calls only permitted table
/// functions, and reads, at every place, a table of the catalog or a common table
/// expression that is in scope there.
pub proof fn law_accepted_queries_stay_inside(ast: JsonView, i: int)
    requires
        vetted(ast, Ok(())),
        0 <= i < nodes(ast).len(),
    ensures
        statements(ast) is Some && statements(ast)->0.len() == 1,
        function_of(nodes(ast)[i]) is Some ==> safe_function(function_of(nodes(ast)[i])->0),
        ({
            let site = sites(ast, Scope::empty())[i];
            &&& site.node == nodes(ast)[i]
            &&& table_of(site.node) is Some ==> allowed(table_of(site.node)->0) || reads_cte(site)
        }),
{
    lemma_unsafe_none(nodes(ast), i);
    law_every_node_has_its_site(ast, Scope::empty());
    let ss = sites(ast, Scope::empty());
    if table_of(ss[i].node) is Some {
        let t = table_of(ss[i].node)->0;
        if reads_foreign(ss[i], t) {
            assert(foreign_at(ss).contains(t));
            assert(refused(ast).contains(t));
        }
    }
}

/// A query that reads a table outside the catalog at a place where what it names is no
/// common table expression that is in scope never passes the guard.
pub proof fn law_foreign_tables_are_refused(ast: JsonView, i: int, r: Result<(), EngineErrorView>)
    requires
        vetted(ast, r),
        0 <= i < sites(ast, Scope::empty()).len(),
        ({
            let site = sites(ast, Scope::empty())[i];
            &&& table_of(site.node) is Some
            &&& !allowed(table_of(site.node)->0)
            &&& !reads_cte(site)
        }),
    ensures
        r is Err,
{
    law_every_node_has_its_site(ast, Scope::empty());
    if r is Ok {
        law_accepted_queries_stay_inside(ast, i);
    }
}

/// True if nothing but names of `all` is in a scope.
spec fn holds_only(scope: Scope, all: Set<Seq<char>>) -> bool {
    scope.names.subset_of(all) && scope.own.subset_of(all) && scope.recurring.subset_of(all)
}

/// True if nothing but names of `all` is in scope at some sites.
spec fn within(ss: Seq<Site>, all: Set<Seq<char>>) -> bool {
    forall|i: int| 0 <= i < ss.len() ==> holds_only((#[trigger] ss[i]).scope, all)
}

/// The entries of the declarations `c`.
spec fn map_entries(c: JsonView) -> Seq<JsonView> {
    match c.get("map"@) {
        Some(JsonView::Array(e)) => e,
        _ => Seq::empty(),
    }
}

proof fn lemma_member_first(m: Seq<(Seq<char>, JsonView)>, k: int, key: Seq<char>)
    requires
        0 <= k < m.len(),
        last_is_first(m.take(k + 1), key),
    ensures
        JsonView::Object(m).get(key) == Some(m[k].1),
    decreases k,
{
    let a = m.take(k + 1);
    if k > 0 {
        let rest = m.drop_first();
        assert(a.drop_last()[0] == m[0]);
        assert(m[0].0 != key);
        let b = rest.take(k);
        assert(b.last() == a.last());
        if has_key(b.drop_last(), key) {
            let i = choose|i: int|
                0 <= i < b.drop_last().len() && (#[trigger] b.drop_last()[i]).0 == key;
            assert(a.drop_last()[i + 1].0 == key);
        }
        lemma_member_first(rest, k - 1, key);
        assert(rest[k - 1] == m[k]);
    }
}

proof fn lemma_within(v: JsonView, scope: Scope, all: Set<Seq<char>>)
    requires
        ctes_in(nodes(v)).subset_of(all),
        holds_only(scope, all),
    ensures
        within(sites(v, scope), all),
    decreases v, 2int,
{
    match v {
        JsonView::Array(items) => {
            lemma_tables_concat(seq![v], item_nodes(items));
            lemma_item_within(items, scope, all);
        },
        JsonView::Object(m) => {
            lemma_tables_concat(seq![v], member_nodes(m));
            assert forall|x: Seq<char>| #[trigger] declared(cte_entries(v)).contains(x) implies
                all.contains(x) by {
                assert(declares(nodes(v)[0], x));
                assert(ctes_in(nodes(v)).contains(x));
            }
            assert(m.take(m.len() as int) =~= m);
            lemma_member_within(v, m, m, scope, all);
        },
        _ => {},
    }
}

proof fn lemma_item_within(
    items: Seq<JsonView>,
    scope: Scope,
    all: Set<Seq<char>>,
)
    requires
        ctes_in(item_nodes(items)).subset_of(all),
        holds_only(scope, all),
    ensures
        within(item_sites(items, scope), all),
    decreases items, 1int,
{
    if items.len() > 0 {
        lemma_tables_concat(item_nodes(items.drop_last()), nodes(items.last()));
        lemma_item_within(items.drop_last(), scope, all);
        lemma_within(items.last(), scope, all);
    }
}

proof fn lemma_member_within(
    v: JsonView,
    whole: Seq<(Seq<char>, JsonView)>,
    m: Seq<(Seq<char>, JsonView)>,
    scope: Scope,
    all: Set<Seq<char>>,
)
    requires
        v == JsonView::Object(whole),
        m.len() <= whole.len(),
        m == whole.take(m.len() as int),
        ctes_in(member_nodes(m)).subset_of(all),
        declared(cte_entries(v)).subset_of(all),
        holds_only(scope, all),
    ensures
        within(member_sites(v, m, scope), all),
    decreases m, 1int,
{
    if m.len() > 0 {
        let k = m.len() - 1;
        assert(m.drop_last() =~= whole.take(k));
        lemma_tables_concat(member_nodes(m.drop_last()), nodes(m.last().1));
        lemma_member_within(v, whole, m.drop_last(), scope, all);
        if last_is_first(m, "cte_map"@) {
            lemma_member_first(whole, k, "cte_map"@);
            assert(map_entries(m.last().1) == cte_entries(v));
            lemma_cte_within(m.last().1, scope, all);
        } else {
            lemma_within(m.last().1, scope_below(v, m.last().0, scope), all);
        }
    }
}

proof fn lemma_cte_within(
    c: JsonView,
    scope: Scope,
    all: Set<Seq<char>>,
)
    requires
        ctes_in(nodes(c)).subset_of(all),
        declared(map_entries(c)).subset_of(all),
        holds_only(scope, all),
    ensures
        within(cte_sites(c, scope), all),
    decreases c, 2int,
{
    match c {
        JsonView::Array(items) => {
            lemma_tables_concat(seq![c], item_nodes(items));
            lemma_item_within(items, scope, all);
        },
        JsonView::Object(m) => {
            lemma_tables_concat(seq![c], member_nodes(m));
            assert(m.take(m.len() as int) =~= m);
            lemma_cte_member_within(c, m, m, scope, all);
        },
        _ => {},
    }
}

proof fn lemma_cte_member_within(
    c: JsonView,
    whole: Seq<(Seq<char>, JsonView)>,
    m: Seq<(Seq<char>, JsonView)>,
    scope: Scope,
    all: Set<Seq<char>>,
)
    requires
        c == JsonView::Object(whole),
        m.len() <= whole.len(),
        m == whole.take(m.len() as int),
        ctes_in(member_nodes(m)).subset_of(all),
        declared(map_entries(c)).subset_of(all),
        holds_only(scope, all),
    ensures
        within(cte_member_sites(m, scope), all),
    decreases m, 1int,
{
    if m.len() > 0 {
        let k = m.len() - 1;
        let w = m.last().1;
        assert(m.drop_last() =~= whole.take(k));
        lemma_tables_concat(member_nodes(m.drop_last()), nodes(w));
        lemma_cte_member_within(c, whole, m.drop_last(), scope, all);
        lemma_within(w, scope, all);
        match w {
            JsonView::Array(entries) => {
                lemma_tables_concat(seq![w], item_nodes(entries));
                if last_is_first(m, "map"@) {
                    lemma_member_first(whole, k, "map"@);
                    assert(map_entries(c) == entries);
                    lemma_entry_within(entries, scope, all);
                }
            },
            _ => {},
        }
    }
}

proof fn lemma_entry_within(
    entries: Seq<JsonView>,
    scope: Scope,
    all: Set<Seq<char>>,
)
    requires
        ctes_in(item_nodes(entries)).subset_of(all),
        declared(entries).subset_of(all),
        holds_only(scope, all),
    ensures
        within(entry_sites(entries, scope), all),
    decreases entries, 1int,
{
    if entries.len() > 0 {
        let e = entries.last();
        let before = entries.drop_last();
        lemma_tables_concat(item_nodes(before), nodes(e));
        assert(entries.take(before.len() as int) =~= before);
        assert(entries.take(before.len() as int + 1) =~= entries);
        lemma_declared_push(entries, before.len() as int);
        lemma_declared_one(e);
        assert forall|x: Seq<char>| #[trigger] declared(before).contains(x) implies all.contains(
            x,
        ) by {
            assert(declared(entries).contains(x));
        }
        assert forall|x: Seq<char>| #[trigger] declared(seq![e]).contains(x) implies all.contains(
            x,
        ) by {
            assert(declared(entries).contains(x));
        }
        lemma_entry_within(before, scope, all);
        lemma_within(e, entry_scope(entries, scope), all);
    }
}

/// A table outside the catalog that a query reads anywhere and declares nowhere is
/// refused, whatever the scopes.
pub proof fn law_undeclared_tables_are_refused(ast: JsonView, t: Seq<char>)
    requires
        tables_in(nodes(ast)).contains(t),
        !ctes_in(nodes(ast)).contains(t),
        !allowed(t),
    ensures
        refused(ast).contains(t),
{
    let ns = nodes(ast);
    let ss = sites(ast, Scope::empty());
    let i = choose|i: int| 0 <= i < ns.len() && #[trigger] table_of(ns[i]) == Some(t);
    law_every_node_has_its_site(ast, Scope::empty());
    lemma_within(ast, Scope::empty(), ctes_in(ns));
    assert(ss[i].node == ns[i]);
    assert(holds_only(ss[i].scope, ctes_in(ns)));
    assert(reads_foreign(ss[i], t));
}

/// A query that calls a table function that is not permitted never passes the guard.
pub proof fn law_foreign_functions_are_refused(ast: JsonView, n: JsonView, r: Result<(), EngineErrorView>)
    requires
        vetted(ast, r),
        nodes(ast).contains(n),
        function_of(n) is Some,
        !safe_function(function_of(n)->0),
    ensures
        r is Err,
{
    if r is Ok {
        let i = choose|i: int| 0 <= i < nodes(ast).len() && nodes(ast)[i] == n;
        law_accepted_queries_stay_inside(ast, i);
    }
}

// ---- laws of the parts ----

/// True if a node reads the table `t`, as the query writes it.
pub open spec fn reads_table(v: JsonView, t: Seq<char>) -> bool {
    v.text_at("type"@) == Some("BASE_TABLE"@) && v.text_at("table_name"@) == Some(t)
}

/// True if a node calls the table function `f`.
pub open spec fn calls_function(v: JsonView, f: Seq<char>) -> bool {
    &&& v.text_at("type"@) == Some("TABLE_FUNCTION"@)
    &&& v.get("function"@) is Some
    &&& v.get("function"@)->0.text_at("function_name"@) == Some(f)
}

/// A table that is read is judged by its name in lower case, whatever else the node
/// holds: its bare name stands for a common table expression of that name in scope, its
/// name under the schema `recurring` for the rows so far of a recursive one, and
/// otherwise it has to be in the catalog.
pub proof fn law_tables_are_judged_by_their_names(
    v: JsonView,
    t: Seq<char>,
    scope: Scope,
    x: Seq<char>,
)
    requires
        reads_table(v, t),
    ensures
        ({
            let bare = v.get("schema_name"@) is None || v.text_at("schema_name"@) == Some(""@);
            let recurring = v.text_at("schema_name"@) is Some && lower(
                v.text_at("schema_name"@)->0,
            ) == "recurring"@;
            let unqualified = v.get("catalog_name"@) is None || v.text_at("catalog_name"@) == Some(
                ""@,
            );
            let known = unqualified && (bare && scope.names.contains(lower(t)) || recurring
                && scope.recurring.contains(lower(t)));
            reads_foreign(Site { node: v, scope }, x) <==> x == lower(t) && !allowed(lower(t))
                && !known
        }),
{
    reveal_strlit("");
    let empty = Seq::<char>::empty();
    assert(""@ =~= empty);
    assert(blank_at(v, "schema_name"@) <==> v.get("schema_name"@) is None || v.text_at(
        "schema_name"@,
    ) == Some(""@)) by {
        if let Some(JsonView::Text(s)) = v.get("schema_name"@) {
            assert(s.len() == 0 <==> s =~= empty);
        }
    }
    assert(blank_at(v, "catalog_name"@) <==> v.get("catalog_name"@) is None || v.text_at(
        "catalog_name"@,
    ) == Some(""@)) by {
        if let Some(JsonView::Text(s)) = v.get("catalog_name"@) {
            assert(s.len() == 0 <==> s =~= empty);
        }
    }
}

/// Two nodes that agree on their type and on the catalog, the schema and the name of the
/// table are judged alike in the same scope, whatever their other members hold: an alias
/// or a sample changes nothing.
pub proof fn law_an_alias_changes_nothing(v: JsonView, w: JsonView, scope: Scope, x: Seq<char>)
    requires
        v.get("type"@) == w.get("type"@),
        v.get("table_name"@) == w.get("table_name"@),
        v.get("schema_name"@) == w.get("schema_name"@),
        v.get("catalog_name"@) == w.get("catalog_name"@),
    ensures
        reads_foreign(Site { node: v, scope }, x) <==> reads_foreign(Site { node: w, scope }, x),
        tables_in(seq![v]) == tables_in(seq![w]),
{
    assert forall|y: Seq<char>| tables_in(seq![v]).contains(y) <==> tables_in(seq![w]).contains(
        y,
    ) by {
        assert(seq![v][0] == v && seq![w][0] == w);
        assert(table_of(v) == table_of(w));
        if table_of(v) == Some(y) {
            assert(table_of(seq![v][0]) == Some(y));
            assert(table_of(seq![w][0]) == Some(y));
        }
    }
    assert(tables_in(seq![v]) =~= tables_in(seq![w]));
}

/// A node that is no base table, or names none, reads no foreign table.
pub proof fn law_only_base_tables_are_read(v: JsonView, scope: Scope, x: Seq<char>)
    requires
        forall|t: Seq<char>| !reads_table(v, t),
    ensures
        !reads_foreign(Site { node: v, scope }, x),
{
    if v.text_at("type"@) == Some("BASE_TABLE"@) && v.text_at("table_name"@) is Some {
        assert(reads_table(v, v.text_at("table_name"@)->0));
    }
}

proof fn lemma_unsafe_names_the_first(ns: Seq<JsonView>, f: Seq<char>)
    ensures
        unsafe_in(ns) == Some(f) <==> exists|i: int|
            #![trigger ns[i]]
            0 <= i < ns.len() && calls_function(ns[i], f) && !safe_function(f) && (forall|
                j: int,
                g: Seq<char>,
            |
                0 <= j < i && #[trigger] calls_function(ns[j], g) ==> safe_function(g)),
    decreases ns.len(),
{
    if ns.len() > 0 {
        let init = ns.drop_last();
        let n = ns.len() - 1;
        lemma_unsafe_names_the_first(init, f);
        if unsafe_in(ns) == Some(f) {
            if unsafe_in(init) == Some(f) {
                let i = choose|i: int|
                    #![trigger init[i]]
                    0 <= i < init.len() && calls_function(init[i], f) && !safe_function(f)
                        && (forall|j: int, g: Seq<char>|
                        0 <= j < i && #[trigger] calls_function(init[j], g) ==> safe_function(g));
                assert(ns[i] == init[i]);
                assert forall|j: int, g: Seq<char>|
                    0 <= j < i && #[trigger] calls_function(ns[j], g) implies safe_function(g) by {
                    assert(calls_function(init[j], g));
                }
            } else {
                assert(unsafe_in(init) is None);
                assert(calls_function(ns[n], f));
                assert forall|j: int, g: Seq<char>|
                    0 <= j < n && #[trigger] calls_function(ns[j], g) implies safe_function(g) by {
                    lemma_unsafe_none(init, j);
                    assert(function_of(init[j]) == Some(g));
                }
            }
        }
        if exists|i: int|
            #![trigger ns[i]]
            0 <= i < ns.len() && calls_function(ns[i], f) && !safe_function(f) && (forall|
                j: int,
                g: Seq<char>,
            |
                0 <= j < i && #[trigger] calls_function(ns[j], g) ==> safe_function(g)) {
            let i = choose|i: int|
                #![trigger ns[i]]
                0 <= i < ns.len() && calls_function(ns[i], f) && !safe_function(f) && (forall|
                    j: int,
                    g: Seq<char>,
                |
                    0 <= j < i && #[trigger] calls_function(ns[j], g) ==> safe_function(g));
            if i < n {
                assert(init[i] == ns[i]);
                assert forall|j: int, g: Seq<char>|
                    0 <= j < i && #[trigger] calls_function(init[j], g) implies safe_function(
                    g,
                ) by {
                    assert(calls_function(ns[j], g));
                }
                assert(unsafe_in(init) == Some(f));
            } else {
                if unsafe_in(init) is Some {
                    let g = unsafe_in(init)->0;
                    lemma_unsafe_names_the_first(init, g);
                    let k = choose|k: int|
                        #![trigger init[k]]
                        0 <= k < init.len() && calls_function(init[k], g) && !safe_function(g)
                            && (forall|j: int, h: Seq<char>|
                            0 <= j < k && #[trigger] calls_function(init[j], h) ==> safe_function(
                                h,
                            ));
                    assert(calls_function(ns[k], g));
                }
                assert(function_of(ns[n]) == Some(f));
            }
        }
    }
}

/// True if the parser took a query for one statement.
pub open spec fn is_one_statement(ast: JsonView) -> bool {
    &&& ast.get("error"@) != Some(JsonView::Bool(true))
    &&& ast.get("statements"@) matches Some(JsonView::Array(st)) && st.len() == 1
}

/// What the parser itself refuses is answered before anything is looked at: with the
/// parser's message, or a fixed one where it gives none; without statements the query
/// was not understood; more or fewer than one are counted.
pub proof fn law_only_one_select_passes(ast: JsonView, r: Result<(), EngineErrorView>)
    requires
        vetted(ast, r),
    ensures
        ast.get("error"@) == Some(JsonView::Bool(true)) ==> r == Err::<(), EngineErrorView>(
            EngineErrorView::NotSelect(
                match ast.get("error_message"@) {
                    Some(JsonView::Text(m)) => m,
                    _ => "invalid SQL"@,
                },
            ),
        ),
        ast.get("error"@) != Some(JsonView::Bool(true)) ==> (match ast.get("statements"@) {
            Some(JsonView::Array(st)) => st.len() != 1 ==> r == Err::<(), EngineErrorView>(
                EngineErrorView::StatementCount(st.len()),
            ),
            _ => r == Err::<(), EngineErrorView>(EngineErrorView::Unparsed),
        }),
        is_one_statement(ast) ==> r is Ok || r->Err_0 is TableFunction || r->Err_0 is Table,
{
}

/// The first table function of a one-statement query that is not permitted is refused
/// by its name, and no other.
pub proof fn law_the_first_foreign_function_is_named(
    ast: JsonView,
    f: Seq<char>,
    r: Result<(), EngineErrorView>,
)
    requires
        vetted(ast, r),
        is_one_statement(ast),
    ensures
        r == Err::<(), EngineErrorView>(EngineErrorView::TableFunction(f)) <==> exists|i: int|
            #![trigger nodes(ast)[i]]
            0 <= i < nodes(ast).len() && calls_function(nodes(ast)[i], f) && !safe_function(f) && (
            forall|j: int, g: Seq<char>|
                0 <= j < i && #[trigger] calls_function(nodes(ast)[j], g) ==> safe_function(g)),
{
    lemma_unsafe_names_the_first(nodes(ast), f);
}

/// A one-statement query is accepted if every table that it reads is in the catalog and
/// every table function that it calls is permitted.
pub proof fn law_catalog_queries_are_accepted(ast: JsonView, r: Result<(), EngineErrorView>)
    requires
        vetted(ast, r),
        is_one_statement(ast),
        forall|i: int, t: Seq<char>|
            0 <= i < nodes(ast).len() && #[trigger] reads_table(nodes(ast)[i], t) ==> allowed(
                lower(t),
            ),
        forall|i: int, f: Seq<char>|
            0 <= i < nodes(ast).len() && #[trigger] calls_function(nodes(ast)[i], f)
                ==> safe_function(f),
    ensures
        r is Ok,
{
    let ns = nodes(ast);
    if unsafe_in(ns) is Some {
        let f = unsafe_in(ns)->0;
        lemma_unsafe_names_the_first(ns, f);
        let i = choose|i: int|
            #![trigger ns[i]]
            0 <= i < ns.len() && calls_function(ns[i], f) && !safe_function(f) && (forall|
                j: int,
                g: Seq<char>,
            |
                0 <= j < i && #[trigger] calls_function(ns[j], g) ==> safe_function(g));
        assert(calls_function(nodes(ast)[i], f));
    }
    assert forall|x: Seq<char>| !(#[trigger] refused(ast).contains(x)) by {
        if refused(ast).contains(x) {
            let t = lemma_refused_is_read(ast, x);
        }
    }
    if let Err(EngineErrorView::Table(t)) = r {
        assert(refused(ast).contains(t));
    }
}

proof fn lemma_refused_is_read(ast: JsonView, x: Seq<char>) -> (t: Seq<char>)
    requires
        refused(ast).contains(x),
    ensures
        lower(t) == x,
        !allowed(x),
        exists|i: int| 0 <= i < nodes(ast).len() && #[trigger] reads_table(nodes(ast)[i], t),
{
    let ss = sites(ast, Scope::empty());
    law_every_node_has_its_site(ast, Scope::empty());
    let i = choose|i: int| 0 <= i < ss.len() && #[trigger] reads_foreign(ss[i], x);
    let t = ss[i].node.text_at("table_name"@)->0;
    assert(ss[i].node == nodes(ast)[i]);
    assert(reads_table(nodes(ast)[i], t));
    t
}

/// A table that is refused is read by the query under that name, in any case of its
/// letters, and is not in the catalog; no other such table that the query declares
/// nowhere comes before it in the order of texts.
pub proof fn law_the_refused_table_is_read(
    ast: JsonView,
    x: Seq<char>,
    r: Result<(), EngineErrorView>,
) -> (t: Seq<char>)
    requires
        vetted(ast, r),
        r == Err::<(), EngineErrorView>(EngineErrorView::Table(x)),
    ensures
        lower(t) == x,
        !allowed(x),
        exists|i: int| 0 <= i < nodes(ast).len() && #[trigger] reads_table(nodes(ast)[i], t),
        forall|i: int, u: Seq<char>|
            0 <= i < nodes(ast).len() && #[trigger] reads_table(nodes(ast)[i], u) && !allowed(
                lower(u),
            ) && !ctes_in(nodes(ast)).contains(lower(u)) ==> lower(u) == x || less(x, lower(u)),
{
    assert(refused(ast).contains(x));
    assert forall|i: int, u: Seq<char>|
        0 <= i < nodes(ast).len() && #[trigger] reads_table(nodes(ast)[i], u) && !allowed(lower(u))
            && !ctes_in(nodes(ast)).contains(lower(u)) implies lower(u) == x || less(
        x,
        lower(u),
    ) by {
        assert(table_of(nodes(ast)[i]) == Some(lower(u)));
        assert(tables_in(nodes(ast)).contains(lower(u)));
        law_undeclared_tables_are_refused(ast, lower(u));
        assert(refused(ast).contains(lower(u)));
    }
    lemma_refused_is_read(ast, x)
}

/// A name is declared by the first member `cte_map` of a node: by an entry of the list
/// under `map` there that has it as its `key`, in any case of its letters.
pub proof fn law_names_are_declared_by_their_keys(
    v: JsonView,
    c: JsonView,
    e: Seq<JsonView>,
    x: Seq<char>,
)
    ensures
        v.get("cte_map"@) is None ==> !declares(v, x),
        v.get("cte_map"@) == Some(c) && c.get("map"@) is None ==> !declares(v, x),
        v.get("cte_map"@) == Some(c) && c.get("map"@) is Some && !(c.get("map"@)->0 is Array)
            ==> !declares(v, x),
        v.get("cte_map"@) == Some(c) && c.get("map"@) == Some(JsonView::Array(e)) ==> (declares(
            v,
            x,
        ) <==> exists|i: int|
            0 <= i < e.len() && (#[trigger] e[i]).text_at("key"@) is Some && lower(
                e[i].text_at("key"@)->0,
            ) == x),
{
    if v.get("cte_map"@) == Some(c) && c.get("map"@) == Some(JsonView::Array(e)) {
        assert(cte_entries(v) == e);
        if exists|i: int|
            0 <= i < e.len() && (#[trigger] e[i]).text_at("key"@) is Some && lower(
                e[i].text_at("key"@)->0,
            ) == x {
            let i = choose|i: int|
                0 <= i < e.len() && (#[trigger] e[i]).text_at("key"@) is Some && lower(
                    e[i].text_at("key"@)->0,
                ) == x;
            assert(entry_declares(cte_entries(v)[i], x));
        }
    }
}

/// True if a node is the query of a recursive expression named `x`, in lower case.
pub open spec fn recurs_as(v: JsonView, x: Seq<char>) -> bool {
    &&& v.text_at("type"@) == Some("RECURSIVE_CTE_NODE"@)
    &&& v.text_at("cte_name"@) is Some
    &&& lower(v.text_at("cte_name"@)->0) == x
}

/// Below a node is in scope what is in scope at it and what it declares; and in the
/// right part of a recursive expression whose declaration encloses it, its own name.
pub proof fn law_what_is_in_scope_below(v: JsonView, key: Seq<char>, scope: Scope, x: Seq<char>)
    ensures
        ({
            let below = scope_below(v, key, scope);
            let again = key == "right"@ && recurs_as(v, x) && scope.own.contains(x);
            &&& below.names.contains(x) <==> scope.names.contains(x) || declares(v, x) || again
            &&& below.recurring.contains(x) <==> scope.recurring.contains(x) || again
            &&& below.own.contains(x) <==> scope.own.contains(x)
        }),
{
    assert(declared(cte_entries(v)).contains(x) <==> declares(v, x));
}

/// A declaration sees what is in scope at its node and the declarations before it, not
/// itself and none after it; its own name encloses it.
pub proof fn law_what_a_declaration_sees(entries: Seq<JsonView>, k: int, scope: Scope, x: Seq<char>)
    requires
        0 <= k < entries.len(),
    ensures
        ({
            let seen = entry_scope(entries.take(k + 1), scope);
            &&& seen.names.contains(x) <==> scope.names.contains(x) || exists|i: int|
                0 <= i < k && (#[trigger] entries[i]).text_at("key"@) is Some && lower(
                    entries[i].text_at("key"@)->0,
                ) == x
            &&& seen.own.contains(x) <==> scope.own.contains(x) || entries[k].text_at("key"@)
                is Some && lower(entries[k].text_at("key"@)->0) == x
            &&& seen.recurring == scope.recurring
        }),
{
    let a = entries.take(k + 1);
    let b = a.drop_last();
    assert(a.last() == entries[k]);
    lemma_declared_one(entries[k]);
    if declared(b).contains(x) {
        let i = choose|i: int| 0 <= i < b.len() && #[trigger] entry_declares(b[i], x);
        assert(b[i] == entries[i]);
    }
    if exists|i: int|
        0 <= i < k && (#[trigger] entries[i]).text_at("key"@) is Some && lower(
            entries[i].text_at("key"@)->0,
        ) == x {
        let i = choose|i: int|
            0 <= i < k && (#[trigger] entries[i]).text_at("key"@) is Some && lower(
                entries[i].text_at("key"@)->0,
            ) == x;
        assert(b[i] == entries[i]);
        assert(entry_declares(b[i], x));
    }
}

proof fn lemma_member_sites_at(
    v: JsonView,
    m: Seq<(Seq<char>, JsonView)>,
    k: int,
    scope: Scope,
    s: Site,
)
    requires
        0 <= k < m.len(),
        if last_is_first(m.take(k + 1), "cte_map"@) {
            cte_sites(m[k].1, scope).contains(s)
        } else {
            sites(m[k].1, scope_below(v, m[k].0, scope)).contains(s)
        },
    ensures
        member_sites(v, m, scope).contains(s),
    decreases m.len(),
{
    let a = member_sites(v, m.drop_last(), scope);
    let b = if last_is_first(m, "cte_map"@) {
        cte_sites(m.last().1, scope)
    } else {
        sites(m.last().1, scope_below(v, m.last().0, scope))
    };
    if k < m.len() - 1 {
        assert(m.drop_last().take(k + 1) =~= m.take(k + 1));
        assert(m.drop_last()[k] == m[k]);
        lemma_member_sites_at(v, m.drop_last(), k, scope, s);
        let j = choose|j: int| 0 <= j < a.len() && a[j] == s;
        assert((a + b)[j] == s);
    } else {
        assert(m.take(k + 1) =~= m);
        let j = choose|j: int| 0 <= j < b.len() && b[j] == s;
        assert((a + b)[a.len() + j] == s);
    }
}

proof fn lemma_cte_member_sites_at(
    m: Seq<(Seq<char>, JsonView)>,
    k: int,
    e: Seq<JsonView>,
    scope: Scope,
    s: Site,
)
    requires
        0 <= k < m.len(),
        m[k].1 == JsonView::Array(e),
        last_is_first(m.take(k + 1), "map"@),
        entry_sites(e, scope).contains(s),
    ensures
        cte_member_sites(m, scope).contains(s),
    decreases m.len(),
{
    let a = cte_member_sites(m.drop_last(), scope);
    let whole = cte_member_sites(m, scope);
    if k < m.len() - 1 {
        assert(m.drop_last().take(k + 1) =~= m.take(k + 1));
        assert(m.drop_last()[k] == m[k]);
        lemma_cte_member_sites_at(m.drop_last(), k, e, scope, s);
        let j = choose|j: int| 0 <= j < a.len() && a[j] == s;
        assert(whole[j] == s);
    } else {
        assert(m.take(k + 1) =~= m);
        let b = entry_sites(e, scope);
        let j = choose|j: int| 0 <= j < b.len() && b[j] == s;
        assert(whole =~= a + (seq![Site { node: m.last().1, scope }] + b));
        assert(whole[a.len() + 1 + j] == s);
    }
}

proof fn lemma_entry_sites_at(e: Seq<JsonView>, i: int, scope: Scope, s: Site)
    requires
        0 <= i < e.len(),
        sites(e[i], entry_scope(e.take(i + 1), scope)).contains(s),
    ensures
        entry_sites(e, scope).contains(s),
    decreases e.len(),
{
    let a = entry_sites(e.drop_last(), scope);
    let b = sites(e.last(), entry_scope(e, scope));
    if i < e.len() - 1 {
        assert(e.drop_last().take(i + 1) =~= e.take(i + 1));
        assert(e.drop_last()[i] == e[i]);
        lemma_entry_sites_at(e.drop_last(), i, scope, s);
        let j = choose|j: int| 0 <= j < a.len() && a[j] == s;
        assert((a + b)[j] == s);
    } else {
        assert(e.take(i + 1) =~= e);
        let j = choose|j: int| 0 <= j < b.len() && b[j] == s;
        assert((a + b)[a.len() + j] == s);
    }
}

proof fn lemma_first_member(m: Seq<(Seq<char>, JsonView)>, key: Seq<char>) -> (k: int)
    requires
        JsonView::Object(m).get(key) is Some,
    ensures
        0 <= k < m.len(),
        m[k].1 == JsonView::Object(m).get(key)->0,
        last_is_first(m.take(k + 1), key),
    decreases m.len(),
{
    if m[0].0 == key {
        assert(m.take(1).drop_last() =~= Seq::empty());
        assert(m.take(1).last() == m[0]);
        0
    } else {
        let rest = m.drop_first();
        let j = lemma_first_member(rest, key);
        let a = m.take(j + 2);
        assert(a.last() == rest.take(j + 1).last());
        if has_key(a.drop_last(), key) {
            let i = choose|i: int|
                0 <= i < a.drop_last().len() && (#[trigger] a.drop_last()[i]).0 == key;
            assert(i > 0);
            assert(rest.take(j + 1).drop_last()[i - 1].0 == key);
        }
        j + 1
    }
}

/// What stands under a member of a node, except its declarations, is looked at with
/// what is in scope below that member.
pub proof fn law_members_see_what_their_node_declares(
    m: Seq<(Seq<char>, JsonView)>,
    k: int,
    scope: Scope,
    s: Site,
)
    requires
        0 <= k < m.len(),
        m[k].0 != "cte_map"@,
        sites(m[k].1, scope_below(JsonView::Object(m), m[k].0, scope)).contains(s),
    ensures
        sites(JsonView::Object(m), scope).contains(s),
{
    let v = JsonView::Object(m);
    assert(m.take(k + 1).last() == m[k]);
    lemma_member_sites_at(v, m, k, scope, s);
    let rest = member_sites(v, m, scope);
    let j = choose|j: int| 0 <= j < rest.len() && rest[j] == s;
    assert(sites(v, scope)[1 + j] == s);
}

/// What stands in a declaration of a node is looked at with what that declaration sees.
pub proof fn law_declarations_see_the_earlier_ones(
    v: JsonView,
    c: JsonView,
    e: Seq<JsonView>,
    i: int,
    scope: Scope,
    s: Site,
)
    requires
        v.get("cte_map"@) == Some(c),
        c.get("map"@) == Some(JsonView::Array(e)),
        0 <= i < e.len(),
        sites(e[i], entry_scope(e.take(i + 1), scope)).contains(s),
    ensures
        sites(v, scope).contains(s),
{
    let m = v->Object_0;
    let cm = c->Object_0;
    lemma_entry_sites_at(e, i, scope, s);
    let p = lemma_first_member(cm, "map"@);
    lemma_cte_member_sites_at(cm, p, e, scope, s);
    let inner = cte_member_sites(cm, scope);
    let q = choose|q: int| 0 <= q < inner.len() && inner[q] == s;
    assert(cte_sites(c, scope)[1 + q] == s);
    let k = lemma_first_member(m, "cte_map"@);
    lemma_member_sites_at(v, m, k, scope, s);
    let rest = member_sites(v, m, scope);
    let j = choose|j: int| 0 <= j < rest.len() && rest[j] == s;
    assert(sites(v, scope)[1 + j] == s);
}

/// What stands in an array is looked at with the array's own scope.
pub proof fn law_items_see_what_their_array_sees(
    items: Seq<JsonView>,
    i: int,
    scope: Scope,
    s: Site,
)
    requires
        0 <= i < items.len(),
        sites(items[i], scope).contains(s),
    ensures
        sites(JsonView::Array(items), scope).contains(s),
{
    lemma_item_sites_at(items, i, scope, s);
    let rest = item_sites(items, scope);
    let j = choose|j: int| 0 <= j < rest.len() && rest[j] == s;
    assert(sites(JsonView::Array(items), scope)[1 + j] == s);
}

proof fn lemma_item_sites_at(items: Seq<JsonView>, i: int, scope: Scope, s: Site)
    requires
        0 <= i < items.len(),
        sites(items[i], scope).contains(s),
    ensures
        item_sites(items, scope).contains(s),
    decreases items.len(),
{
    let a = item_sites(items.drop_last(), scope);
    let b = sites(items.last(), scope);
    if i < items.len() - 1 {
        assert(items.drop_last()[i] == items[i]);
        lemma_item_sites_at(items.drop_last(), i, scope, s);
        let j = choose|j: int| 0 <= j < a.len() && a[j] == s;
        assert((a + b)[j] == s);
    } else {
        let j = choose|j: int| 0 <= j < b.len() && b[j] == s;
        assert((a + b)[a.len() + j] == s);
    }
}

/// The guard looks at nothing but the query: whatever is among the nodes is the root or
/// in the tree of something directly below it. The root comes first.
pub proof fn law_nodes_are_of_the_tree(v: JsonView, x: JsonView)
    requires
        nodes(v).contains(x),
    ensures
        nodes(v)[0] == v,
        x == v || exists|i: int| #[trigger]
            child(v, i) is Some && nodes(child(v, i)->0).contains(x),
{
    let j = choose|j: int| 0 <= j < nodes(v).len() && nodes(v)[j] == x;
    if j > 0 {
        match v {
            JsonView::Array(items) => {
                assert(item_nodes(items)[j - 1] == x);
                let i = lemma_item_of(items, x);
                assert(child(v, i) == Some(items[i]));
            },
            JsonView::Object(m) => {
                assert(member_nodes(m)[j - 1] == x);
                let i = lemma_member_of(m, x);
                assert(child(v, i) == Some(m[i].1));
            },
            _ => {},
        }
    }
}

proof fn lemma_item_of(items: Seq<JsonView>, x: JsonView) -> (i: int)
    requires
        item_nodes(items).contains(x),
    ensures
        0 <= i < items.len(),
        nodes(items[i]).contains(x),
    decreases items.len(),
{
    let a = item_nodes(items.drop_last());
    let b = nodes(items.last());
    let j = choose|j: int| 0 <= j < item_nodes(items).len() && item_nodes(items)[j] == x;
    if j < a.len() {
        assert(a[j] == x);
        let i = lemma_item_of(items.drop_last(), x);
        assert(items.drop_last()[i] == items[i]);
        i
    } else {
        assert(b[j - a.len()] == x);
        items.len() - 1
    }
}

proof fn lemma_member_of(m: Seq<(Seq<char>, JsonView)>, x: JsonView) -> (i: int)
    requires
        member_nodes(m).contains(x),
    ensures
        0 <= i < m.len(),
        nodes(m[i].1).contains(x),
    decreases m.len(),
{
    let a = member_nodes(m.drop_last());
    let b = nodes(m.last().1);
    let j = choose|j: int| 0 <= j < member_nodes(m).len() && member_nodes(m)[j] == x;
    if j < a.len() {
        assert(a[j] == x);
        let i = lemma_member_of(m.drop_last(), x);
        assert(m.drop_last()[i] == m[i]);
        i
    } else {
        assert(b[j - a.len()] == x);
        m.len() - 1
    }
}

/// A query that the engine could not look at is refused as unparsed, an answer that is no
/// document as unreadable; any other answer is judged by its tree alone.
pub proof fn law_unread_answers_are_refused(
    bytes: Seq<u8>,
    other: Seq<u8>,
    r: Result<(), EngineErrorView>,
)
    ensures
        judged(None, r) <==> r == Err::<(), EngineErrorView>(EngineErrorView::ParseQuery),
        json_document(bytes) is None ==> (judged(Some(bytes), r) <==> r == Err::<
            (),
            EngineErrorView,
        >(EngineErrorView::ReadAst)),
        json_document(bytes) is Some && json_document(bytes) == json_document(other) ==> (judged(
            Some(bytes),
            r,
        ) <==> judged(Some(other), r)),
        json_document(bytes) is Some && judged(Some(bytes), r) ==> vetted(
            json_document(bytes)->0,
            r,
        ),
{
}

/// An outcome of the guard keeps its error.
pub proof fn law_outcomes_keep_their_error(e: EngineError)
    ensures
        outcome(Ok(())) == Ok::<(), EngineErrorView>(()),
        outcome(Err(e)) == Err::<(), _>(e@),
{
}

} // verus!
