//! JSON documents as the replies of the service hold them.
//!
//! The text is read by `serde_json`; what the library reads of the result is
//! held in [`Json`], on which the lookups are verified.

use crate::text::str_eq;
use vstd::prelude::*;

verus! {

/// A JSON value.
#[derive(Debug)]
pub enum Json {
    Null,
    Bool(bool),
    /// A number, with its value where it is an integer within `i64`.
    Number(Option<i64>),
    String(String),
    Array(Vec<Json>),
    /// The members of an object, each with its name.
    Object(Vec<(String, Json)>),
}

/// The first of `members` that bears `name`.
pub open spec fn member_named(members: Seq<(String, Json)>, name: Seq<char>) -> Option<Json>
    decreases members.len(),
{
    if members.len() == 0 {
        None
    } else if members[0].0@ == name {
        Some(members[0].1)
    } else {
        member_named(members.drop_first(), name)
    }
}

impl Json {
    /// The member of an object by its name; nothing for a value that is no
    /// object or has no such member.
    pub open spec fn member(self, name: Seq<char>) -> Option<Json> {
        match self {
            Json::Object(members) => member_named(members@, name),
            _ => None,
        }
    }

    /// The text of a string value.
    pub open spec fn text(self) -> Option<Seq<char>> {
        match self {
            Json::String(s) => Some(s@),
            _ => None,
        }
    }

    /// The value of a number that is an integer within `i64`.
    pub open spec fn integer(self) -> Option<i64> {
        match self {
            Json::Number(n) => n,
            _ => None,
        }
    }

    /// The items of an array.
    pub open spec fn items(self) -> Option<Seq<Json>> {
        match self {
            Json::Array(items) => Some(items@),
            _ => None,
        }
    }

    /// The member of an object by its name.
    pub fn get(&self, name: &str) -> (found: Option<&Json>)
        ensures
            match found {
                Some(member) => self.member(name@) == Some(*member),
                None => self.member(name@) is None,
            },
    {
        match self {
            Json::Object(members) => {
                let mut i: usize = 0;
                assert(members@.skip(0) =~= members@);
                while i < members.len() && !str_eq(members[i].0.as_str(), name)
                    invariant
                        i <= members.len(),
                        member_named(members@, name@) == member_named(
                            members@.skip(i as int),
                            name@,
                        ),
                    decreases members.len() - i,
                {
                    assert(members@.skip(i as int).drop_first() =~= members@.skip(i + 1));
                    i += 1;
                }
                if i < members.len() {
                    Some(&members[i].1)
                } else {
                    None
                }
            },
            _ => None,
        }
    }

    /// The text of a string value.
    pub fn as_str(&self) -> (text: Option<&str>)
        ensures
            match text {
                Some(s) => self.text() == Some(s@),
                None => self.text() is None,
            },
    {
        match self {
            Json::String(s) => Some(s.as_str()),
            _ => None,
        }
    }

    /// The value of a number that is an integer within `i64`.
    pub fn as_i64(&self) -> (value: Option<i64>)
        ensures
            value == self.integer(),
    {
        match self {
            Json::Number(n) => *n,
            _ => None,
        }
    }

    /// The items of an array.
    pub fn as_array(&self) -> (items: Option<&Vec<Json>>)
        ensures
            match items {
                Some(list) => self.items() == Some(list@),
                None => self.items() is None,
            },
    {
        match self {
            Json::Array(items) => Some(items),
            _ => None,
        }
    }
}

/// `serde_json::Value`, of which nothing is known but what
/// [`json_document`] says of the value that a text gives.
#[verifier::external_type_specification]
#[verifier::external_body]
pub struct ExValue(serde_json::Value);

/// The document that a text holds, as `serde_json` reads it; nothing where
/// the text is no JSON.
pub uninterp spec fn json_document(text: Seq<char>) -> Option<Json>;

/// Takes a `serde_json::Value` apart, variant by variant. A number is kept
/// as what `Number::as_i64` gives for it; an object's members are those of
/// its map, in the map's order.
#[verifier::external_body]
fn json_from_value(value: serde_json::Value) -> (json: Json) {
    match value {
        serde_json::Value::Null => Json::Null,
        serde_json::Value::Bool(b) => Json::Bool(b),
        serde_json::Value::Number(n) => Json::Number(n.as_i64()),
        serde_json::Value::String(s) => Json::String(s),
        serde_json::Value::Array(items) => Json::Array(
            items.into_iter().map(json_from_value).collect(),
        ),
        serde_json::Value::Object(members) => Json::Object(
            members.into_iter().map(|(name, member)| (name, json_from_value(member))).collect(),
        ),
    }
}

/// `serde_json::from_str` for a `Value`: the document of the text, or
/// nothing where `serde_json` reports an error.
#[verifier::external_body]
pub(crate) fn parse_json(text: &str) -> (document: Option<Json>)
    ensures
        document == json_document(text@),
{
    serde_json::from_str::<serde_json::Value>(text).ok().map(json_from_value)
}

} // verus!
