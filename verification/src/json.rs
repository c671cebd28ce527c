//! JSON documents.

use crate::reals::Real;
use crate::text;
use vstd::prelude::*;

verus! {

/// A JSON number: its canonical text and its value in each type that can hold it.
pub struct Number {
    pub text: String,
    pub unsigned: Option<u64>,
    pub signed: Option<i64>,
    pub value: Option<Real>,
}

/// A JSON value. The members of an object stand in the order of the document's map.
pub enum Json {
    Null,
    Bool(bool),
    Number(Number),
    Text(String),
    Array(Vec<Json>),
    Object(Vec<(String, Json)>),
}

/// What a JSON number says.
pub struct NumberView {
    pub text: Seq<char>,
    pub unsigned: Option<u64>,
    pub signed: Option<i64>,
    pub value: Option<Real>,
}

/// What a JSON value says.
pub enum JsonView {
    Null,
    Bool(bool),
    Number(NumberView),
    Text(Seq<char>),
    Array(Seq<JsonView>),
    Object(Seq<(Seq<char>, JsonView)>),
}

impl View for Number {
    type V = NumberView;

    open spec fn view(&self) -> NumberView {
        NumberView {
            text: self.text@,
            unsigned: self.unsigned,
            signed: self.signed,
            value: self.value,
        }
    }
}

/// What a JSON value says.
pub open spec fn json_view(j: Json) -> JsonView
    decreases j,
{
    match j {
        Json::Null => JsonView::Null,
        Json::Bool(b) => JsonView::Bool(b),
        Json::Number(n) => JsonView::Number(n@),
        Json::Text(t) => JsonView::Text(t@),
        Json::Array(a) => JsonView::Array(
            Seq::new(
                a@.len(),
                |i: int| if 0 <= i < a@.len() { json_view(a@[i]) } else { JsonView::Null },
            ),
        ),
        Json::Object(m) => JsonView::Object(
            Seq::new(
                m@.len(),
                |i: int|
                    if 0 <= i < m@.len() {
                        (m@[i].0@, json_view(m@[i].1))
                    } else {
                        (Seq::empty(), JsonView::Null)
                    },
            ),
        ),
    }
}

impl View for Json {
    type V = JsonView;

    open spec fn view(&self) -> JsonView {
        json_view(*self)
    }
}

// ---------------------------------------------------------------------------
// reading a document
// ---------------------------------------------------------------------------

/// A JSON value of the outside parser.
#[verifier::external_type_specification]
#[verifier::external_body]
pub struct ExValue(serde_json::Value);

/// What `serde_json::from_str` reads from a text: a document, or the message of an error.
pub uninterp spec fn json_read(text: Seq<char>) -> Result<JsonView, Seq<char>>;

/// The document that a `serde_json::Value` holds.
pub uninterp spec fn value_holds(v: serde_json::Value) -> JsonView;

/// Calls `serde_json::from_str`: a value that holds what the text says, or the message of
/// the error. Which of the two, and what it says, depends on the text alone.
#[verifier::external_body]
fn read_value(text: &str) -> (r: Result<serde_json::Value, String>)
    ensures
        match r {
            Ok(v) => json_read(text@) == Ok::<JsonView, Seq<char>>(value_holds(v)),
            Err(m) => json_read(text@) == Err::<JsonView, Seq<char>>(m@),
        },
{
    serde_json::from_str::<serde_json::Value>(text).map_err(|e| e.to_string())
}

/// Moves what a `serde_json::Value` holds into a [`Json`], variant by variant. A number is
/// taken by its `Display` text and by `as_u64`, `as_i64` and `as_f64`; the members of an
/// object come in the order of `serde_json::Map::into_iter`.
#[verifier::external_body]
fn into_json(v: serde_json::Value) -> (r: Json)
    ensures
        r@ == value_holds(v),
{
    match v {
        serde_json::Value::Null => Json::Null,
        serde_json::Value::Bool(b) => Json::Bool(b),
        serde_json::Value::Number(n) => Json::Number(Number {
            text: n.to_string(),
            unsigned: n.as_u64(),
            signed: n.as_i64(),
            value: n.as_f64().map(|x| Real { bits: x.to_bits() }),
        }),
        serde_json::Value::String(s) => Json::Text(s),
        serde_json::Value::Array(a) => Json::Array(a.into_iter().map(into_json).collect()),
        serde_json::Value::Object(m) => Json::Object(m.into_iter().map(|(k, v)| (k, into_json(v))).collect()),
    }
}

/// Reads a JSON document.
pub fn parse(text: &str) -> (r: Result<Json, String>)
    ensures
        match r {
            Ok(j) => json_read(text@) == Ok::<JsonView, Seq<char>>(j@),
            Err(m) => json_read(text@) == Err::<JsonView, Seq<char>>(m@),
        },
{
    match read_value(text) {
        Ok(v) => Ok(into_json(v)),
        Err(m) => Err(m),
    }
}

// ---------------------------------------------------------------------------
// looking into a document
// ---------------------------------------------------------------------------

/// The first of the members with the key `key`.
pub open spec fn find_member(members: Seq<(Seq<char>, JsonView)>, key: Seq<char>) -> Option<JsonView>
    decreases members.len(),
{
    if members.len() == 0 {
        None
    } else if members[0].0 == key {
        Some(members[0].1)
    } else {
        find_member(members.skip(1), key)
    }
}

/// The members of an object; no other value has any.
pub open spec fn members(j: JsonView) -> Seq<(Seq<char>, JsonView)> {
    match j {
        JsonView::Object(m) => m,
        _ => Seq::empty(),
    }
}

/// The member `key` of an object.
pub open spec fn member(j: JsonView, key: Seq<char>) -> Option<JsonView> {
    find_member(members(j), key)
}

/// The member `key` of an object that is a member itself; `Null` where it is missing.
pub open spec fn member_or_null(j: JsonView, key: Seq<char>) -> JsonView {
    match member(j, key) {
        Some(v) => v,
        None => JsonView::Null,
    }
}

/// The text of a string; no other value has one.
pub open spec fn text_in(j: Option<JsonView>) -> Option<Seq<char>> {
    match j {
        Some(JsonView::Text(t)) => Some(t),
        _ => None,
    }
}

/// The signed integer that a number is; no other value is one.
pub open spec fn signed_in(j: Option<JsonView>) -> Option<i64> {
    match j {
        Some(JsonView::Number(n)) => n.signed,
        _ => None,
    }
}

/// The unsigned integer that a number is; no other value is one.
pub open spec fn unsigned_in(j: Option<JsonView>) -> Option<u64> {
    match j {
        Some(JsonView::Number(n)) => n.unsigned,
        _ => None,
    }
}

/// What a reference to a JSON value says, where there is one.
pub open spec fn opt_view(j: Option<&Json>) -> Option<JsonView> {
    match j {
        Some(v) => Some(v@),
        None => None,
    }
}

impl Json {
    /// The member `key` of an object.
    pub fn get<'a>(&'a self, key: &str) -> (r: Option<&'a Json>)
        ensures
            opt_view(r) == member(self@, key@),
    {
        match self {
            Json::Object(m) => {
                let ghost all = members(self@);
                let mut i: usize = 0;
                assert(all.skip(0) == all);
                while i < m.len()
                    invariant
                        i <= m@.len(),
                        all == members(self@),
                        *self == Json::Object(*m),
                        all.len() == m@.len(),
                        find_member(all.skip(i as int), key@) == find_member(all, key@),
                    decreases m@.len() - i,
                {
                    assert(all.skip(i as int)[0] == (m@[i as int].0@, m@[i as int].1@));
                    assert(all.skip(i as int).skip(1) == all.skip(i + 1));
                    if text::same(m[i].0.as_str(), key) {
                        return Some(&m[i].1);
                    }
                    i += 1;
                }
                None
            },
            _ => None,
        }
    }
}

/// The text of a string.
pub fn as_text<'a>(j: Option<&'a Json>) -> (r: Option<&'a String>)
    ensures
        match r {
            Some(t) => text_in(opt_view(j)) == Some(t@),
            None => text_in(opt_view(j)) is None,
        },
{
    match j {
        Some(Json::Text(t)) => Some(t),
        _ => None,
    }
}

/// The signed integer that a number is.
pub fn as_signed(j: Option<&Json>) -> (r: Option<i64>)
    ensures
        r == signed_in(opt_view(j)),
{
    match j {
        Some(Json::Number(n)) => n.signed,
        _ => None,
    }
}

/// The unsigned integer that a number is.
pub fn as_unsigned(j: Option<&Json>) -> (r: Option<u64>)
    ensures
        r == unsigned_in(opt_view(j)),
{
    match j {
        Some(Json::Number(n)) => n.unsigned,
        _ => None,
    }
}

/// The member `key` of an object that may be missing.
pub fn member_of<'a>(j: Option<&'a Json>, key: &str) -> (r: Option<&'a Json>)
    ensures
        opt_view(r) == match opt_view(j) {
            Some(v) => member(v, key@),
            None => None,
        },
{
    match j {
        Some(v) => v.get(key),
        None => None,
    }
}

} // verus!
