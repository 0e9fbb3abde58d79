//! JSON as far as the dashboard reads and writes it.

use crate::text;
use vstd::prelude::*;
use vstd::string::*;

verus! {

/// A value in JSON. Of a number only that it is one is kept.
pub enum Json {
    Null,
    Bool(bool),
    Number,
    Text(String),
    Array(Vec<Json>),
    /// The entries in the order in which they are walked.
    Object(Vec<(String, Json)>),
}

pub ghost enum JsonView {
    Null,
    Bool(bool),
    Number,
    Text(Seq<char>),
    Array(Seq<JsonView>),
    Object(Seq<(Seq<char>, JsonView)>),
}

/// A value in JSON as values.
pub open spec fn json_view(j: Json) -> JsonView
    decreases j,
{
    match j {
        Json::Null => JsonView::Null,
        Json::Bool(b) => JsonView::Bool(b),
        Json::Number => JsonView::Number,
        Json::Text(t) => JsonView::Text(t@),
        Json::Array(v) => JsonView::Array(
            Seq::new(
                v@.len(),
                |i: int|
                    if 0 <= i < v@.len() {
                        json_view(v@[i])
                    } else {
                        JsonView::Null
                    },
            ),
        ),
        Json::Object(v) => JsonView::Object(
            Seq::new(
                v@.len(),
                |i: int|
                    if 0 <= i < v@.len() {
                        (v@[i].0@, json_view(v@[i].1))
                    } else {
                        (Seq::empty(), JsonView::Null)
                    },
            ),
        ),
    }
}

/// A `serde_json::Value`, carried as it is.
#[verifier::external_type_specification]
#[verifier::external_body]
pub struct ExValue(serde_json::Value);

/// What a `serde_json::Value` holds.
pub uninterp spec fn json_content(v: serde_json::Value) -> JsonView;

/// What `serde_json::from_str` reads from a text, if it is JSON.
pub uninterp spec fn parsed_json(s: Seq<char>) -> Option<JsonView>;

/// A `serde_json::Value` taken apart, one level deep.
pub enum Opened {
    Null,
    Bool(bool),
    Number,
    Text(String),
    Array(Vec<serde_json::Value>),
    Object(Vec<(String, serde_json::Value)>),
}

/// What an opened value holds.
pub open spec fn opened_content(o: Opened) -> JsonView {
    match o {
        Opened::Null => JsonView::Null,
        Opened::Bool(b) => JsonView::Bool(b),
        Opened::Number => JsonView::Number,
        Opened::Text(t) => JsonView::Text(t@),
        Opened::Array(v) => JsonView::Array(v@.map_values(|x: serde_json::Value| json_content(x))),
        Opened::Object(v) => JsonView::Object(
            v@.map_values(|e: (String, serde_json::Value)| (e.0@, json_content(e.1))),
        ),
    }
}

/// The variants of `serde_json::Value` told apart. The entries of an object
/// come in the order in which its map walks them.
#[verifier::external_body]
fn open_value(v: &serde_json::Value) -> (r: Opened)
    ensures
        opened_content(r) == json_content(*v),
{
    match v {
        serde_json::Value::Null => Opened::Null,
        serde_json::Value::Bool(b) => Opened::Bool(*b),
        serde_json::Value::Number(_) => Opened::Number,
        serde_json::Value::String(s) => Opened::Text(s.clone()),
        serde_json::Value::Array(a) => Opened::Array(a.clone()),
        serde_json::Value::Object(m) => Opened::Object(
            m.iter().map(|(k, x)| (k.clone(), x.clone())).collect(),
        ),
    }
}

/// `serde_json::from_str` for a `serde_json::Value`; what it reads depends on
/// the text alone.
#[verifier::external_body]
fn parse_value(s: &str) -> (r: Option<serde_json::Value>)
    ensures
        match r {
            Some(v) => parsed_json(s@) == Some(json_content(v)),
            None => parsed_json(s@) is None,
        },
{
    serde_json::from_str::<serde_json::Value>(s).ok()
}

/// What a `serde_json::Value` holds.
pub fn to_json(v: &serde_json::Value) -> (r: Json)
    ensures
        json_view(r) == json_content(*v),
    decreases json_content(*v),
{
    match open_value(v) {
        Opened::Null => Json::Null,
        Opened::Bool(b) => Json::Bool(b),
        Opened::Number => Json::Number,
        Opened::Text(t) => Json::Text(t),
        Opened::Array(list) => {
            let mut out: Vec<Json> = Vec::new();
            let ghost parts = json_content(*v)->Array_0;
            let mut i: usize = 0;
            while i < list.len()
                invariant
                    i <= list@.len(),
                    json_content(*v) == JsonView::Array(parts),
                    parts == list@.map_values(|x: serde_json::Value| json_content(x)),
                    out@.len() == i,
                    forall|k: int| 0 <= k < i ==> json_view(#[trigger] out@[k]) == parts[k],
                decreases list@.len() - i,
            {
                assert(parts[i as int] == json_content(list@[i as int]));
                assert(decreases_to!(json_content(*v) => json_content(*v)->Array_0));
                assert(decreases_to!(parts => parts[i as int]));
                let part = to_json(&list[i]);
                out.push(part);
                i = i + 1;
            }
            let r = Json::Array(out);
            assert(json_view(r)->Array_0 =~= parts);
            r
        },
        Opened::Object(list) => {
            let mut out: Vec<(String, Json)> = Vec::new();
            let ghost parts = json_content(*v)->Object_0;
            let mut i: usize = 0;
            while i < list.len()
                invariant
                    i <= list@.len(),
                    json_content(*v) == JsonView::Object(parts),
                    parts == list@.map_values(
                        |e: (String, serde_json::Value)| (e.0@, json_content(e.1)),
                    ),
                    out@.len() == i,
                    forall|k: int|
                        0 <= k < i ==> (#[trigger] out@[k]).0@ == parts[k].0 && json_view(out@[k].1)
                            == parts[k].1,
                decreases list@.len() - i,
            {
                assert(parts[i as int] == (list@[i as int].0@, json_content(list@[i as int].1)));
                assert(decreases_to!(json_content(*v) => json_content(*v)->Object_0));
                assert(decreases_to!(parts => parts[i as int]));
                assert(decreases_to!(parts[i as int] => parts[i as int].1));
                let key = list[i].0.clone();
                let part = to_json(&list[i].1);
                out.push((key, part));
                i = i + 1;
            }
            let r = Json::Object(out);
            assert(json_view(r)->Object_0 =~= parts);
            r
        },
    }
}

/// Reads JSON; gives nothing where the text is none.
pub fn parse_json(s: &str) -> (r: Option<Json>)
    ensures
        match r {
            Some(j) => parsed_json(s@) == Some(json_view(j)),
            None => parsed_json(s@) is None,
        },
{
    match parse_value(s) {
        Some(v) => Some(to_json(&v)),
        None => None,
    }
}

/// What a body of a reply is as JSON; nothing where it is no text, or no JSON.
pub open spec fn parsed_body(body: Option<Seq<char>>) -> Option<JsonView> {
    match body {
        Some(s) => parsed_json(s),
        None => None,
    }
}

/// Reads the body of a reply, which may be no text.
pub fn parse_body(body: Option<&str>) -> (r: Option<Json>)
    ensures
        match r {
            Some(j) => parsed_body(text::str_view(body)) == Some(json_view(j)),
            None => parsed_body(text::str_view(body)) is None,
        },
{
    match body {
        Some(s) => parse_json(s),
        None => None,
    }
}

/// Where an entry of an object stands, from entry `i` on.
pub open spec fn entry_at(entries: Seq<(Seq<char>, JsonView)>, key: Seq<char>, i: int) -> Option<
    int,
>
    decreases entries.len() - i,
{
    if i < 0 || i >= entries.len() {
        None
    } else if entries[i].0 == key {
        Some(i)
    } else {
        entry_at(entries, key, i + 1)
    }
}

/// An entry of an object; nothing where there is none, or where the value is
/// no object.
pub open spec fn field(j: JsonView, key: Seq<char>) -> JsonView {
    match j {
        JsonView::Object(entries) => match entry_at(entries, key, 0) {
            Some(i) => entries[i].1,
            None => JsonView::Null,
        },
        _ => JsonView::Null,
    }
}

/// The text that a value is, if it is one.
pub open spec fn text_of(j: JsonView) -> Option<Seq<char>> {
    match j {
        JsonView::Text(t) => Some(t),
        _ => None,
    }
}

impl Json {
    /// An entry of an object, if the value is an object that has it.
    pub fn get(&self, key: &str) -> (r: Option<&Json>)
        ensures
            match r {
                Some(j) => field(json_view(*self), key@) == json_view(*j),
                None => field(json_view(*self), key@) == JsonView::Null,
            },
            json_view(*self) matches JsonView::Object(entries) ==> r is Some == entry_at(
                entries,
                key@,
                0,
            ) is Some,
            !(json_view(*self) is Object) ==> r is None,
    {
        match self {
            Json::Object(list) => {
                let ghost entries = json_view(*self)->Object_0;
                let mut i: usize = 0;
                while i < list.len()
                    invariant
                        i <= list@.len(),
                        *self == Json::Object(*list),
                        json_view(*self) == JsonView::Object(entries),
                        entries.len() == list@.len(),
                        entry_at(entries, key@, 0) == entry_at(entries, key@, i as int),
                    decreases list@.len() - i,
                {
                    assert(entries[i as int] == (
                        list@[i as int].0@,
                        json_view(list@[i as int].1),
                    ));
                    if text::same_text(list[i].0.as_str(), key) {
                        return Some(&list[i].1);
                    }
                    i = i + 1;
                }
                None
            },
            _ => None,
        }
    }

    /// The text of an entry, if it is one.
    pub fn get_text(&self, key: &str) -> (r: Option<String>)
        ensures
            text::opt_text(r) == text_of(field(json_view(*self), key@)),
    {
        match self.get(key) {
            Some(Json::Text(t)) => Some(t.clone()),
            _ => None,
        }
    }
}

/// An entry of an object is found under its key: the first one where there are
/// several, and nothing where there is none.
pub proof fn law_field_is_found_by_key(entries: Seq<(Seq<char>, JsonView)>, key: Seq<char>, i: int)
    ensures
        0 <= i < entries.len() && entries[i].0 == key && (forall|j: int|
            0 <= j < i ==> (#[trigger] entries[j]).0 != key) ==> field(
            JsonView::Object(entries),
            key,
        ) == entries[i].1,
        (forall|j: int| 0 <= j < entries.len() ==> (#[trigger] entries[j]).0 != key) ==> field(
            JsonView::Object(entries),
            key,
        ) is Null,
{
    lemma_entry_at(entries, key, 0);
}

proof fn lemma_entry_at(entries: Seq<(Seq<char>, JsonView)>, key: Seq<char>, i: int)
    requires
        0 <= i <= entries.len(),
    ensures
        match entry_at(entries, key, i) {
            Some(k) => i <= k < entries.len() && entries[k].0 == key && forall|j: int|
                i <= j < k ==> (#[trigger] entries[j]).0 != key,
            None => forall|j: int| i <= j < entries.len() ==> (#[trigger] entries[j]).0 != key,
        },
    decreases entries.len() - i,
{
    if i < entries.len() && entries[i].0 != key {
        lemma_entry_at(entries, key, i + 1);
    }
}

/// What is no object has no entries, and what is no text is none.
pub proof fn law_only_objects_have_entries(j: JsonView, key: Seq<char>)
    ensures
        !(j is Object) ==> field(j, key) is Null,
        match j {
            JsonView::Text(t) => text_of(j) == Some(t),
            _ => text_of(j) is None,
        },
{
}

/// An object has an entry of a key if and only if the search for it finds one.
pub proof fn law_entry_found_iff_there(entries: Seq<(Seq<char>, JsonView)>, key: Seq<char>)
    ensures
        entry_at(entries, key, 0) is Some <==> exists|j: int|
            0 <= j < entries.len() && (#[trigger] entries[j]).0 == key,
{
    lemma_entry_at(entries, key, 0);
    if let Some(k) = entry_at(entries, key, 0) {
        assert(entries[k].0 == key);
    }
}

/// The body of a reply is read as JSON where it is text.
pub proof fn law_body_is_read_as_json(body: Seq<char>)
    ensures
        parsed_body(Some(body)) == parsed_json(body),
        parsed_body(None) is None,
{
}

} // verus!
