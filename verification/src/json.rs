//! JSON documents as values of the library, and the reading of typed fields
//! from them.

use crate::text::text_equal;
use vstd::prelude::*;

verus! {

/// A JSON value.
#[derive(Debug, PartialEq, Eq)]
pub enum Json {
    Null,
    Bool(bool),
    /// A number; its value where it is an integer in the range of `i64`.
    Number(Option<i64>),
    Text(String),
    Array(Vec<Json>),
    Object(Vec<Member>),
}

/// A key of a JSON object with its value.
#[derive(Debug, PartialEq, Eq)]
pub struct Member {
    pub key: String,
    pub value: Json,
}

/// The value of the first member with the given key.
pub open spec fn find_member(members: Seq<Member>, key: Seq<char>) -> Option<Json>
    decreases members.len(),
{
    if members.len() == 0 {
        None
    } else if members[0].key@ == key {
        Some(members[0].value)
    } else {
        find_member(members.drop_first(), key)
    }
}

impl Json {
    /// The member of an object with the given key; `Null` where there is no
    /// such member or the value is no object.
    pub open spec fn member(self, key: Seq<char>) -> Json {
        match self {
            Json::Object(members) => match find_member(members@, key) {
                Some(value) => value,
                None => Json::Null,
            },
            _ => Json::Null,
        }
    }

    /// The integer that a number holds.
    pub open spec fn integer(self) -> Option<i64> {
        match self {
            Json::Number(n) => n,
            _ => None,
        }
    }

    /// The text that a string holds.
    pub open spec fn text(self) -> Option<Seq<char>> {
        match self {
            Json::Text(s) => Some(s@),
            _ => None,
        }
    }

    /// The truth value that a boolean holds.
    pub open spec fn flag(self) -> Option<bool> {
        match self {
            Json::Bool(b) => Some(b),
            _ => None,
        }
    }

    /// The elements that an array holds.
    pub open spec fn items(self) -> Option<Seq<Json>> {
        match self {
            Json::Array(items) => Some(items@),
            _ => None,
        }
    }

    /// The member with the given key, as `member` defines it.
    pub fn get(&self, key: &str) -> (value: &Json)
        ensures
            *value == self.member(key@),
    {
        match self {
            Json::Object(members) => {
                let mut i: usize = 0;
                proof {
                    assert(members@.skip(0) =~= members@);
                }
                while i < members.len()
                    invariant
                        *self == Json::Object(*members),
                        i <= members@.len(),
                        find_member(members@, key@) == find_member(members@.skip(i as int), key@),
                    decreases members@.len() - i,
                {
                    proof {
                        assert(members@.skip(i as int).drop_first() =~= members@.skip(i + 1));
                        assert(members@.skip(i as int)[0] == members@[i as int]);
                    }
                    if text_equal(members[i].key.as_str(), key) {
                        return &members[i].value;
                    }
                    i += 1;
                }
                &Json::Null
            },
            _ => &Json::Null,
        }
    }

    pub fn as_i64(&self) -> (n: Option<i64>)
        ensures
            n == self.integer(),
    {
        match self {
            Json::Number(n) => *n,
            _ => None,
        }
    }

    pub fn as_str(&self) -> (s: Option<&str>)
        ensures
            s is Some == self.text() is Some,
            s is Some ==> Some(s->0@) == self.text(),
    {
        match self {
            Json::Text(s) => Some(s.as_str()),
            _ => None,
        }
    }

    pub fn as_bool(&self) -> (b: Option<bool>)
        ensures
            b == self.flag(),
    {
        match self {
            Json::Bool(b) => Some(*b),
            _ => None,
        }
    }

    pub fn as_array(&self) -> (items: Option<&Vec<Json>>)
        ensures
            items is Some == self.items() is Some,
            items is Some ==> Some(items->0@) == self.items(),
    {
        match self {
            Json::Array(items) => Some(items),
            _ => None,
        }
    }

    pub fn is_null(&self) -> (b: bool)
        ensures
            b == (*self is Null),
    {
        match self {
            Json::Null => true,
            _ => false,
        }
    }
}

/// `serde_json::Value`, carried from the parser to its rewriting as a `Json`;
/// nothing is known of what it holds.
#[verifier::external_type_specification]
#[verifier::external_body]
pub struct ExValue(serde_json::Value);

/// `serde_json::Error`, the error of the parser; nothing is known of what it
/// holds.
#[verifier::external_type_specification]
#[verifier::external_body]
pub struct ExError(serde_json::Error);

/// The document that `serde_json::from_str` reads from a text, as a `Json`;
/// `None` where the text is no JSON document.
pub uninterp spec fn parsed_json(text: Seq<char>) -> Option<Json>;

/// Rewrites a `serde_json::Value` as a `Json`, variant by variant: a number
/// keeps what `Number::as_i64` gives, an object its members in the order in
/// which its map hands them out. Nothing is claimed of the result here.
#[verifier::external_body]
fn json_of_value(value: serde_json::Value) -> Json {
    match value {
        serde_json::Value::Null => Json::Null,
        serde_json::Value::Bool(b) => Json::Bool(b),
        serde_json::Value::Number(n) => Json::Number(n.as_i64()),
        serde_json::Value::String(s) => Json::Text(s),
        serde_json::Value::Array(items) => Json::Array(
            items.into_iter().map(json_of_value).collect(),
        ),
        serde_json::Value::Object(map) => Json::Object(
            map.into_iter().map(|(key, value)| Member { key, value: json_of_value(value) }).collect(),
        ),
    }
}

/// Calls `serde_json::from_str` for a `serde_json::Value`. The result depends
/// on the text alone: it is the document named `parsed_json`, or the error of
/// `serde_json` where the text is no JSON document.
#[verifier::external_body]
fn read_json(text: &str) -> (r: Result<Json, serde_json::Error>)
    ensures
        r is Ok <==> parsed_json(text@) is Some,
        r is Ok ==> Some(r->Ok_0) == parsed_json(text@),
{
    serde_json::from_str::<serde_json::Value>(text).map(json_of_value)
}

/// A text that is no JSON document.
#[derive(Debug, Clone, Copy, PartialEq, Eq, Structural)]
pub struct SyntaxError;

/// Reads a JSON document from a text.
pub fn parse_json(text: &str) -> (r: Result<Json, SyntaxError>)
    ensures
        r is Ok <==> parsed_json(text@) is Some,
        r is Ok ==> Some(r->Ok_0) == parsed_json(text@),
{
    match read_json(text) {
        Ok(document) => Ok(document),
        Err(_) => Err(SyntaxError),
    }
}

} // verus!
