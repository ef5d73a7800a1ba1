//! JSON values as the decisions of this library read and write them.

use vstd::prelude::*;

use crate::text::decimal;
use crate::text::decimal_text;
use crate::text::same_text;
use crate::text::texts;

verus! {

/// A JSON value. A number is carried by its decimal text; the members of an
/// object keep the order in which they were produced.
#[derive(Debug)]
pub enum Json {
    Null,
    Bool(bool),
    Number(String),
    Text(String),
    Array(Vec<Json>),
    Object(Vec<(String, Json)>),
}

/// The mathematical value of a [`Json`].
pub enum JsonView {
    Null,
    Bool(bool),
    Number(Seq<char>),
    Text(Seq<char>),
    Array(Seq<JsonView>),
    Object(Seq<(Seq<char>, JsonView)>),
}

impl Json {
    /// The mathematical value.
    pub open spec fn view(&self) -> JsonView
        decreases self,
    {
        match self {
            Json::Null => JsonView::Null,
            Json::Bool(b) => JsonView::Bool(*b),
            Json::Number(s) => JsonView::Number(s@),
            Json::Text(s) => JsonView::Text(s@),
            Json::Array(v) => JsonView::Array(
                Seq::new(v@.len(), |i: int|
                    if 0 <= i < v@.len() { v@[i].view() } else { JsonView::Null }),
            ),
            Json::Object(m) => JsonView::Object(
                Seq::new(m@.len(), |i: int|
                    if 0 <= i < m@.len() { (m@[i].0@, m@[i].1.view()) } else { (Seq::empty(), JsonView::Null) }),
            ),
        }
    }
}

impl JsonView {
    /// The value of the first member named `key`, if this is an object that has one.
    pub open spec fn get(self, key: Seq<char>) -> Option<JsonView> {
        match self {
            JsonView::Object(m) => member(m, key),
            _ => None,
        }
    }

    /// The text, if this is one.
    pub open spec fn text(self) -> Option<Seq<char>> {
        match self {
            JsonView::Text(s) => Some(s),
            _ => None,
        }
    }

    /// The items, if this is an array.
    pub open spec fn items(self) -> Option<Seq<JsonView>> {
        match self {
            JsonView::Array(v) => Some(v),
            _ => None,
        }
    }

    /// The text of the member named `key`, if there is one and it is a text.
    pub open spec fn text_at(self, key: Seq<char>) -> Option<Seq<char>> {
        match self.get(key) {
            Some(v) => v.text(),
            None => None,
        }
    }
}

/// The value of the first member named `key`.
pub open spec fn member(m: Seq<(Seq<char>, JsonView)>, key: Seq<char>) -> Option<JsonView>
    decreases m.len(),
{
    if m.len() == 0 {
        None
    } else if m[0].0 == key {
        Some(m[0].1)
    } else {
        member(m.drop_first(), key)
    }
}

impl Json {
    /// The value of the first member named `key`, if this is an object that has one.
    pub fn get(&self, key: &str) -> (r: Option<&Json>)
        ensures
            match r {
                Some(j) => self@.get(key@) == Some(j@),
                None => self@.get(key@) is None,
            },
    {
        match self {
            Json::Object(m) => {
                let ghost w = self@->Object_0;
                let mut i: usize = 0;
                assert(w.skip(0) =~= w);
                while i < m.len()
                    invariant
                        i <= m@.len(),
                        w.len() == m@.len(),
                        self@ == JsonView::Object(w),
                        forall|j: int|
                            0 <= j < m@.len() ==> #[trigger] w[j] == (m@[j].0@, m@[j].1@),
                        member(w, key@) == member(w.skip(i as int), key@),
                    decreases m@.len() - i,
                {
                    assert(w.skip(i as int)[0] == w[i as int]);
                    if same_text(m[i].0.as_str(), key) {
                        return Some(&m[i].1);
                    }
                    assert(w.skip(i as int).drop_first() =~= w.skip(i + 1));
                    i = i + 1;
                }
                None
            },
            _ => None,
        }
    }

    /// The text, if this is one.
    pub fn text(&self) -> (r: Option<&String>)
        ensures
            match r {
                Some(s) => self@.text() == Some(s@),
                None => self@.text() is None,
            },
    {
        match self {
            Json::Text(s) => Some(s),
            _ => None,
        }
    }

    /// The text of the member named `key`, if there is one and it is a text.
    pub fn text_at(&self, key: &str) -> (r: Option<&String>)
        ensures
            match r {
                Some(s) => self@.text_at(key@) == Some(s@),
                None => self@.text_at(key@) is None,
            },
    {
        match self.get(key) {
            Some(j) => j.text(),
            None => None,
        }
    }
}

/// The values of a list of documents.
pub open spec fn json_views(v: Seq<Json>) -> Seq<JsonView> {
    v.map_values(|j: Json| j@)
}

/// The values of a list of members.
pub open spec fn member_views(m: Seq<(String, Json)>) -> Seq<(Seq<char>, JsonView)> {
    m.map_values(|x: (String, Json)| (x.0@, x.1@))
}

/// An array of one text.
pub open spec fn one_text(s: Seq<char>) -> JsonView {
    JsonView::Array(seq![JsonView::Text(s)])
}

/// An array of texts.
pub open spec fn text_array(items: Seq<Seq<char>>) -> JsonView {
    JsonView::Array(items.map_values(|s: Seq<char>| JsonView::Text(s)))
}

impl Json {
    /// A text.
    pub fn of_text(s: &str) -> (r: Json)
        ensures
            r@ == JsonView::Text(s@),
    {
        Json::Text(s.to_string())
    }

    /// A number.
    pub fn of_number(n: u64) -> (r: Json)
        ensures
            r@ == JsonView::Number(decimal(n as nat)),
    {
        Json::Number(decimal_text(n))
    }

    /// A truth value.
    pub fn of_bool(b: bool) -> (r: Json)
        ensures
            r@ == JsonView::Bool(b),
    {
        Json::Bool(b)
    }

    /// An array.
    pub fn of_items(items: Vec<Json>) -> (r: Json)
        ensures
            r@ == JsonView::Array(json_views(items@)),
    {
        let ghost w = json_views(items@);
        let r = Json::Array(items);
        assert(r@->Array_0 =~= w);
        r
    }

    /// An object.
    pub fn of_members(members: Vec<(String, Json)>) -> (r: Json)
        ensures
            r@ == JsonView::Object(member_views(members@)),
    {
        let ghost w = member_views(members@);
        let r = Json::Object(members);
        assert(r@->Object_0 =~= w);
        r
    }

    /// An array of one text.
    pub fn of_one_text(s: &str) -> (r: Json)
        ensures
            r@ == one_text(s@),
    {
        let mut items: Vec<Json> = Vec::new();
        items.push(Json::of_text(s));
        assert(json_views(items@) =~= seq![JsonView::Text(s@)]);
        Json::of_items(items)
    }

    /// An array of texts.
    pub fn of_texts(list: &Vec<String>) -> (r: Json)
        ensures
            r@ == text_array(texts(list@)),
    {
        let mut items: Vec<Json> = Vec::new();
        let mut i: usize = 0;
        while i < list.len()
            invariant
                i <= list@.len(),
                items@.len() == i,
                forall|j: int|
                    0 <= j < i ==> (#[trigger] items@[j])@ == JsonView::Text(list@[j]@),
            decreases list@.len() - i,
        {
            items.push(Json::of_text(list[i].as_str()));
            i = i + 1;
        }
        assert(json_views(items@) =~= texts(list@).map_values(|s: Seq<char>| JsonView::Text(s)));
        Json::of_items(items)
    }
}

/// Adds a member to a list of them.
pub fn push_member(m: &mut Vec<(String, Json)>, name: &str, value: Json)
    ensures
        member_views(final(m)@) == member_views(old(m)@).push((name@, value@)),
{
    let ghost before = member_views(m@);
    m.push((name.to_string(), value));
    assert(member_views(m@) =~= before.push((name@, value@)));
}

// ---- reading ----

/// The value that the JSON reader hands out, still closed.
#[verifier::external_type_specification]
#[verifier::external_body]
pub struct ExValue(serde_json::Value);

/// What the JSON reader answers to bytes that are not a document.
#[verifier::external_type_specification]
#[verifier::external_body]
pub struct ExJsonError(serde_json::Error);

/// The JSON document that a parsed value holds.
pub uninterp spec fn value_view(v: serde_json::Value) -> JsonView;

/// One level of a parsed value, with the values below it still closed.
enum Opened {
    Null,
    Bool(bool),
    Number(String),
    Text(String),
    Array(Vec<serde_json::Value>),
    Object(Vec<(String, serde_json::Value)>),
}

spec fn opened_view(o: Opened) -> JsonView {
    match o {
        Opened::Null => JsonView::Null,
        Opened::Bool(b) => JsonView::Bool(b),
        Opened::Number(s) => JsonView::Number(s@),
        Opened::Text(s) => JsonView::Text(s@),
        Opened::Array(v) => JsonView::Array(v@.map_values(|x: serde_json::Value| value_view(x))),
        Opened::Object(m) => JsonView::Object(
            m@.map_values(|x: (String, serde_json::Value)| (x.0@, value_view(x.1))),
        ),
    }
}

/// Takes a `serde_json::Value` apart: its own enum told apart, one arm each. A
/// number comes as the text that `serde_json::Number` shows; the members of an
/// object come in the order of its map.
#[verifier::external_body]
fn open_value(v: serde_json::Value) -> (r: Opened)
    ensures
        opened_view(r) == value_view(v),
{
    match v {
        serde_json::Value::Null => Opened::Null,
        serde_json::Value::Bool(b) => Opened::Bool(b),
        serde_json::Value::Number(n) => Opened::Number(n.to_string()),
        serde_json::Value::String(s) => Opened::Text(s),
        serde_json::Value::Array(a) => Opened::Array(a),
        serde_json::Value::Object(m) => Opened::Object(m.into_iter().collect()),
    }
}

fn read_value(v: serde_json::Value) -> (r: Json)
    ensures
        r@ == value_view(v),
    decreases value_view(v),
{
    match open_value(v) {
        Opened::Null => Json::Null,
        Opened::Bool(b) => Json::Bool(b),
        Opened::Number(s) => Json::Number(s),
        Opened::Text(s) => Json::Text(s),
        Opened::Array(items) => {
            let ghost w = items@.map_values(|x: serde_json::Value| value_view(x));
            let ghost all = items@;
            let mut out: Vec<Json> = Vec::new();
            for head in it: items
                invariant
                    it.seq() == all,
                    w == all.map_values(|x: serde_json::Value| value_view(x)),
                    value_view(v) == JsonView::Array(w),
                    out@.len() == it.index(),
                    forall|i: int| 0 <= i < out@.len() ==> (#[trigger] out@[i])@ == w[i],
            {
                assert(decreases_to!(value_view(v) => value_view(v)->Array_0));
                assert(decreases_to!(w => w[it.index()]));
                out.push(read_value(head));
            }
            let r = Json::Array(out);
            assert(r@->Array_0 =~= w);
            r
        },
        Opened::Object(items) => {
            let ghost w = items@.map_values(
                |x: (String, serde_json::Value)| (x.0@, value_view(x.1)),
            );
            let ghost all = items@;
            let mut out: Vec<(String, Json)> = Vec::new();
            for (key, head) in it: items
                invariant
                    it.seq() == all,
                    w == all.map_values(
                        |x: (String, serde_json::Value)| (x.0@, value_view(x.1)),
                    ),
                    value_view(v) == JsonView::Object(w),
                    out@.len() == it.index(),
                    forall|i: int|
                        0 <= i < out@.len() ==> ((#[trigger] out@[i]).0@, out@[i].1@) == w[i],
            {
                assert(decreases_to!(value_view(v) => value_view(v)->Object_0));
                assert(decreases_to!(w => w[it.index()]));
                assert(decreases_to!(w[it.index()] => w[it.index()].1));
                out.push((key, read_value(head)));
            }
            let r = Json::Object(out);
            assert(r@->Object_0 =~= w);
            r
        },
    }
}

/// The JSON document that some bytes write, if they write one.
pub uninterp spec fn json_document(bytes: Seq<u8>) -> Option<JsonView>;

/// `serde_json::from_slice` into a `serde_json::Value`: whether some bytes are a
/// document, and which, depends on the bytes alone.
#[verifier::external_body]
fn parse_value(bytes: &[u8]) -> (r: Result<serde_json::Value, serde_json::Error>)
    ensures
        match r {
            Ok(v) => json_document(bytes@) == Some(value_view(v)),
            Err(_) => json_document(bytes@) is None,
        },
{
    serde_json::from_slice(bytes)
}

/// Reads a JSON document; `None` if the bytes are not one.
pub fn parse_json(bytes: &[u8]) -> (r: Option<Json>)
    ensures
        match r {
            Some(j) => json_document(bytes@) == Some(j@),
            None => json_document(bytes@) is None,
        },
{
    match parse_value(bytes) {
        Ok(v) => Some(read_value(v)),
        Err(_) => None,
    }
}

// ---- laws ----

/// A member is found under its name: the first one of that name, and none exactly if no
/// member has it.
pub proof fn law_the_first_member_of_a_name_is_found(
    m: Seq<(Seq<char>, JsonView)>,
    k: int,
    key: Seq<char>,
)
    ensures
        0 <= k < m.len() && m[k].0 == key && (forall|j: int| 0 <= j < k ==> (#[trigger] m[j]).0
            != key) ==> JsonView::Object(m).get(key) == Some(m[k].1),
        JsonView::Object(m).get(key) is None <==> forall|j: int|
            0 <= j < m.len() ==> (#[trigger] m[j]).0 != key,
    decreases m.len(),
{
    if m.len() > 0 {
        let rest = m.drop_first();
        law_the_first_member_of_a_name_is_found(rest, k - 1, key);
        if m[0].0 != key {
            assert(forall|j: int| 0 <= j < rest.len() ==> rest[j] == m[j + 1]);
            if 0 < k < m.len() && m[k].0 == key && (forall|j: int|
                0 <= j < k ==> (#[trigger] m[j]).0 != key) {
                assert(rest[k - 1] == m[k]);
                assert forall|j: int| 0 <= j < k - 1 implies (#[trigger] rest[j]).0 != key by {
                    assert(rest[j] == m[j + 1]);
                }
            }
            if forall|j: int| 0 <= j < rest.len() ==> (#[trigger] rest[j]).0 != key {
                assert forall|j: int| 0 <= j < m.len() implies (#[trigger] m[j]).0 != key by {
                    if j > 0 {
                        assert(rest[j - 1] == m[j]);
                    }
                }
            }
        }
    }
}

/// Only objects have members, only texts are texts, and only arrays have items.
pub proof fn law_values_are_read_as_what_they_are(v: JsonView, s: Seq<char>, items: Seq<JsonView>)
    ensures
        !(v is Object) ==> v.get(s) is None && v.text_at(s) is None,
        JsonView::Text(s).text() == Some(s),
        !(v is Text) ==> v.text() is None,
        JsonView::Array(items).items() == Some(items),
        !(v is Array) ==> v.items() is None,
        v.text_at(s) is Some ==> v.get(s) == Some(JsonView::Text(v.text_at(s)->0)),
{
}

/// A list of texts is written item by item, and one text as a list of one.
pub proof fn law_lists_of_texts_keep_their_texts(items: Seq<Seq<char>>, i: int, s: Seq<char>)
    ensures
        text_array(items).items() is Some && text_array(items).items()->0.len() == items.len(),
        0 <= i < items.len() ==> text_array(items).items()->0[i] == JsonView::Text(items[i]),
        one_text(s).items() == Some(seq![JsonView::Text(s)]),
        one_text(s) == text_array(seq![s]),
{
    assert(text_array(seq![s])->Array_0 =~= seq![JsonView::Text(s)]);
}

} // verus!
