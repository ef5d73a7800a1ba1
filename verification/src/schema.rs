//! Describing the schema: which relations are described, the statement that lists
//! the columns of one, and the shape of the answer.

use vstd::prelude::*;
use vstd::string::*;

use crate::catalog::doc_for;
use crate::catalog::doc_of;
use crate::json::json_views;
use crate::json::member_views;
use crate::json::push_member;
use crate::json::Json;
use crate::json::JsonView;
use crate::text::lower;
use crate::text::same_ignoring_case;
use crate::text::str_text;
use crate::text::texts;

verus! {

/// A relation to describe.
#[derive(Debug)]
pub struct Relation {
    pub name: String,
    /// `table` or `view`.
    pub kind: &'static str,
}

/// The mathematical value of a [`Relation`].
pub struct RelationView {
    pub name: Seq<char>,
    pub kind: Seq<char>,
}

impl Relation {
    /// The mathematical value.
    pub open spec fn view(&self) -> RelationView {
        RelationView { name: self.name@, kind: self.kind@ }
    }
}

/// One column of a relation.
#[derive(Debug)]
pub struct Column {
    pub name: String,
    pub kind: String,
}

/// The relations with these names that are described: all, or the one wanted. The
/// letter case does not matter.
pub open spec fn wanted(names: Seq<Seq<char>>, kind: Seq<char>, only: Option<Seq<char>>) -> Seq<
    RelationView,
>
    decreases names.len(),
{
    if names.len() == 0 {
        Seq::empty()
    } else {
        let before = wanted(names.drop_last(), kind, only);
        if only is Some && lower(only->Some_0) != lower(names.last()) {
            before
        } else {
            before.push(RelationView { name: names.last(), kind })
        }
    }
}

/// The values of some relations.
pub open spec fn relation_views(v: Seq<Relation>) -> Seq<RelationView> {
    v.map_values(|r: Relation| r@)
}

fn push_wanted(out: &mut Vec<Relation>, names: &Vec<String>, kind: &'static str, only: Option<&str>)
    ensures
        relation_views(final(out)@) == relation_views(old(out)@) + wanted(
            texts(names@),
            kind@,
            str_text(only),
        ),
{
    let ghost t = texts(names@);
    let ghost start = relation_views(out@);
    let ghost o = str_text(only);
    let mut i: usize = 0;
    assert(t.take(0) =~= Seq::empty());
    assert(relation_views(out@) =~= start + wanted(t.take(0), kind@, o));
    while i < names.len()
        invariant
            i <= names@.len(),
            t == texts(names@),
            o == str_text(only),
            relation_views(out@) == start + wanted(t.take(i as int), kind@, o),
        decreases names@.len() - i,
    {
        proof {
            assert(t.take(i + 1).drop_last() =~= t.take(i as int));
            assert(t.take(i + 1).last() == names@[i as int]@);
        }
        let skip = match only {
            Some(want) => !same_ignoring_case(want, names[i].as_str()),
            None => false,
        };
        if !skip {
            let ghost before = relation_views(out@);
            out.push(Relation { name: names[i].clone(), kind });
            proof {
                let w = RelationView { name: names@[i as int]@, kind: kind@ };
                assert(relation_views(out@) =~= before.push(w));
                assert(start + wanted(t.take(i as int), kind@, o).push(w) =~= (start + wanted(
                    t.take(i as int),
                    kind@,
                    o,
                )).push(w));
            }
        }
        i = i + 1;
    }
    assert(t.take(i as int) =~= t);
}

/// The relations that are described: the tables, then the views.
pub open spec fn described(
    tables: Seq<Seq<char>>,
    views: Seq<Seq<char>>,
    only: Option<Seq<char>>,
) -> Seq<RelationView> {
    wanted(tables, "table"@, only) + wanted(views, "view"@, only)
}

/// The relations to describe: the loaded tables, then the views; `only` restricts
/// to one.
pub fn relations(tables: &Vec<String>, views: &Vec<String>, only: Option<&str>) -> (r: Vec<
    Relation,
>)
    ensures
        relation_views(r@) == described(texts(tables@), texts(views@), str_text(only)),
{
    let mut out: Vec<Relation> = Vec::new();
    assert(relation_views(out@) =~= Seq::empty());
    push_wanted(&mut out, tables, "table", only);
    push_wanted(&mut out, views, "view", only);
    proof {
        let o = str_text(only);
        let a = wanted(texts(tables@), "table"@, o);
        let b = wanted(texts(views@), "view"@, o);
        assert(Seq::<RelationView>::empty() + a + b =~= a + b);
    }
    out
}

/// The statement that lists the columns of a relation.
pub open spec fn columns_query(relation: Seq<char>) -> Seq<char> {
    "SELECT column_name, column_type FROM (DESCRIBE \""@ + relation + "\")"@
}

/// The statement that lists the columns of a relation.
pub fn columns_sql(relation: &str) -> (r: String)
    ensures
        r@ == columns_query(relation@),
{
    let mut s = "SELECT column_name, column_type FROM (DESCRIBE \"".to_string();
    s.append(relation);
    s.append("\")");
    s
}

/// A column as it is described.
pub open spec fn column_json(c: Column) -> JsonView {
    JsonView::Object(seq![("name"@, JsonView::Text(c.name@)), ("type"@, JsonView::Text(c.kind@))])
}

/// The description of a relation in the catalog, or nothing.
pub open spec fn doc_or_empty(name: Seq<char>) -> Seq<char> {
    match doc_of(name) {
        Some(d) => d,
        None => ""@,
    }
}

/// A relation with its columns as it is described.
pub open spec fn relation_json(rel: RelationView, columns: Seq<Column>) -> JsonView {
    JsonView::Object(
        seq![
            ("name"@, JsonView::Text(rel.name)),
            ("relation"@, JsonView::Text(rel.kind)),
            ("description"@, JsonView::Text(doc_or_empty(rel.name))),
            ("columns"@, JsonView::Array(columns.map_values(|c: Column| column_json(c)))),
        ],
    )
}

fn describe_column(c: &Column) -> (r: Json)
    ensures
        r@ == column_json(*c),
{
    let mut m: Vec<(String, Json)> = Vec::new();
    push_member(&mut m, "name", Json::of_text(c.name.as_str()));
    push_member(&mut m, "type", Json::of_text(c.kind.as_str()));
    assert(member_views(m@) =~= column_json(*c)->Object_0);
    Json::of_members(m)
}

/// Describes one relation: the catalog's description merged with the live columns.
pub fn describe_relation(rel: &Relation, columns: &Vec<Column>) -> (r: Json)
    ensures
        r@ == relation_json(rel@, columns@),
{
    let mut items: Vec<Json> = Vec::new();
    let mut i: usize = 0;
    while i < columns.len()
        invariant
            i <= columns@.len(),
            items@.len() == i,
            forall|j: int| 0 <= j < i ==> (#[trigger] items@[j])@ == column_json(columns@[j]),
        decreases columns@.len() - i,
    {
        items.push(describe_column(&columns[i]));
        i = i + 1;
    }
    assert(json_views(items@) =~= columns@.map_values(|c: Column| column_json(c)));
    let doc = match doc_for(rel.name.as_str()) {
        Some(d) => d,
        None => "",
    };
    let mut m: Vec<(String, Json)> = Vec::new();
    push_member(&mut m, "name", Json::of_text(rel.name.as_str()));
    push_member(&mut m, "relation", Json::of_text(rel.kind));
    push_member(&mut m, "description", Json::of_text(doc));
    push_member(&mut m, "columns", Json::of_items(items));
    assert(member_views(m@) =~= relation_json(rel@, columns@)->Object_0);
    Json::of_members(m)
}

/// Every relation that is described has one of the given names and is what the
/// caller wants, and no relation that the caller wants is left out.
pub proof fn law_described_relations_are_the_wanted_ones(
    names: Seq<Seq<char>>,
    kind: Seq<char>,
    only: Option<Seq<char>>,
    name: Seq<char>,
)
    ensures
        wanted(names, kind, only).contains(RelationView { name, kind }) <==> (names.contains(name)
            && (only is Some ==> lower(only->Some_0) == lower(name))),
    decreases names.len(),
{
    let w = wanted(names, kind, only);
    let x = RelationView { name, kind };
    if names.len() > 0 {
        let front = names.drop_last();
        let before = wanted(front, kind, only);
        law_described_relations_are_the_wanted_ones(front, kind, only, name);
        assert(names =~= front.push(names.last()));
        assert(names.contains(name) <==> front.contains(name) || name == names.last()) by {
            if front.contains(name) {
                let k = choose|k: int| 0 <= k < front.len() && front[k] == name;
                assert(names[k] == name);
            }
            if name == names.last() {
                assert(names[names.len() - 1] == name);
            }
        }
        if only is Some && lower(only->Some_0) != lower(names.last()) {
            assert(w == before);
        } else {
            let last = RelationView { name: names.last(), kind };
            assert(w == before.push(last));
            assert(w.contains(x) <==> before.contains(x) || x == last) by {
                if before.contains(x) {
                    let k = choose|k: int| 0 <= k < before.len() && before[k] == x;
                    assert(w[k] == x);
                }
                if x == last {
                    assert(w[w.len() - 1] == x);
                }
            }
        }
    }
}

/// Tables are described first, as tables, and views after them, as views; where nothing
/// is singled out every loaded relation is described once, in the order of loading.
pub proof fn law_tables_are_described_before_views(
    tables: Seq<Seq<char>>,
    views: Seq<Seq<char>>,
    i: int,
)
    ensures
        ({
            let all = described(tables, views, None);
            &&& all.len() == tables.len() + views.len()
            &&& 0 <= i < tables.len() ==> all[i] == (RelationView {
                name: tables[i],
                kind: "table"@,
            })
            &&& 0 <= i < views.len() ==> all[tables.len() + i] == (RelationView {
                name: views[i],
                kind: "view"@,
            })
        }),
{
    lemma_all_wanted(tables, "table"@);
    lemma_all_wanted(views, "view"@);
}

proof fn lemma_all_wanted(names: Seq<Seq<char>>, kind: Seq<char>)
    ensures
        wanted(names, kind, None) == names.map_values(|n: Seq<char>| RelationView { name: n, kind }),
    decreases names.len(),
{
    let f = |n: Seq<char>| RelationView { name: n, kind };
    if names.len() > 0 {
        lemma_all_wanted(names.drop_last(), kind);
        assert(names.map_values(f) =~= names.drop_last().map_values(f).push(f(names.last())));
    } else {
        assert(names.map_values(f) =~= Seq::empty());
    }
}

/// The relation that is singled out is described, and none of another name; the letter
/// case does not matter.
pub proof fn law_one_relation_can_be_singled_out(
    tables: Seq<Seq<char>>,
    views: Seq<Seq<char>>,
    only: Seq<char>,
    name: Seq<char>,
)
    ensures
        ({
            let one = described(tables, views, Some(only));
            let same = lower(only) == lower(name);
            &&& one.contains(RelationView { name, kind: "table"@ }) <==> same && tables.contains(
                name,
            )
            &&& one.contains(RelationView { name, kind: "view"@ }) <==> same && views.contains(name)
        }),
{
    let o = Some(only);
    let a = wanted(tables, "table"@, o);
    let b = wanted(views, "view"@, o);
    law_described_relations_are_the_wanted_ones(tables, "table"@, o, name);
    law_described_relations_are_the_wanted_ones(views, "view"@, o, name);
    lemma_wanted_kind(tables, "table"@, o);
    lemma_wanted_kind(views, "view"@, o);
    reveal_strlit("table");
    reveal_strlit("view");
    assert("table"@.len() == 5 && "view"@.len() == 4);
    lemma_in_either(a, b, RelationView { name, kind: "table"@ });
    lemma_in_either(a, b, RelationView { name, kind: "view"@ });
}

proof fn lemma_in_either(a: Seq<RelationView>, b: Seq<RelationView>, x: RelationView)
    ensures
        (a + b).contains(x) <==> a.contains(x) || b.contains(x),
{
    if a.contains(x) {
        let k = choose|k: int| 0 <= k < a.len() && a[k] == x;
        assert((a + b)[k] == x);
    }
    if b.contains(x) {
        let k = choose|k: int| 0 <= k < b.len() && b[k] == x;
        assert((a + b)[a.len() + k] == x);
    }
}

proof fn lemma_wanted_kind(names: Seq<Seq<char>>, kind: Seq<char>, only: Option<Seq<char>>)
    ensures
        forall|x: RelationView| #[trigger]
            wanted(names, kind, only).contains(x) ==> x.kind == kind,
    decreases names.len(),
{
    if names.len() > 0 {
        let before = wanted(names.drop_last(), kind, only);
        lemma_wanted_kind(names.drop_last(), kind, only);
        assert forall|x: RelationView| #[trigger]
            wanted(names, kind, only).contains(x) implies x.kind == kind by {
            let w = wanted(names, kind, only);
            let k = choose|k: int| 0 <= k < w.len() && w[k] == x;
            if k < before.len() {
                assert(before[k] == x);
                assert(before.contains(x));
            }
        }
    }
}

/// A relation is described by its name, what it is, its description in the catalog, and
/// its columns in their order, each by its name and its type.
pub proof fn law_descriptions_show_the_relation(rel: RelationView, columns: Seq<Column>, i: int)
    ensures
        relation_json(rel, columns).get("name"@) == Some(JsonView::Text(rel.name)),
        relation_json(rel, columns).get("relation"@) == Some(JsonView::Text(rel.kind)),
        doc_of(rel.name) is Some ==> relation_json(rel, columns).get("description"@) == Some(
            JsonView::Text(doc_of(rel.name)->0),
        ),
        doc_of(rel.name) is None ==> relation_json(rel, columns).get("description"@) == Some(
            JsonView::Text(""@),
        ),
        relation_json(rel, columns).get("columns"@) is Some,
        ({
            let shown = relation_json(rel, columns).get("columns"@)->0.items();
            &&& shown is Some && shown->0.len() == columns.len()
            &&& 0 <= i < columns.len() ==> shown->0[i].get("name"@) == Some(
                JsonView::Text(columns[i].name@),
            ) && shown->0[i].get("type"@) == Some(JsonView::Text(columns[i].kind@))
        }),
{
    reveal_with_fuel(crate::json::member, 5);
    reveal_strlit("name");
    reveal_strlit("type");
    reveal_strlit("relation");
    reveal_strlit("description");
    reveal_strlit("columns");
    assert("name"@.len() == 4 && "type"@.len() == 4 && "name"@[0] != "type"@[0]);
    assert("relation"@.len() == 8 && "description"@.len() == 11 && "columns"@.len() == 7);
    let m = relation_json(rel, columns)->Object_0;
    assert(m.drop_first()[0] == m[1]);
    assert(m.drop_first().drop_first()[0] == m[2]);
    assert(m.drop_first().drop_first().drop_first()[0] == m[3]);
    if 0 <= i < columns.len() {
        let c = column_json(columns[i])->Object_0;
        assert(c.drop_first()[0] == c[1]);
    }
}

/// The columns of a relation are asked for by its quoted name.
pub proof fn law_columns_are_asked_for_by_name(relation: Seq<char>)
    ensures
        columns_query(relation) == "SELECT column_name, column_type FROM (DESCRIBE \""@ + relation
            + "\")"@,
{
}

/// A relation is its name and what it is.
pub proof fn law_relations_are_their_fields(r: Relation)
    ensures
        r@.name == r.name@,
        r@.kind == r.kind@,
{
}

} // verus!
