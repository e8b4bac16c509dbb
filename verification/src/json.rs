//! JSON documents as a type of this library, read by the `serde_json` crate.

use vstd::prelude::*;
use vstd::string::StringExecFns;
use crate::wire::{ConvertError, ConvertErrorView, DataType, WireKind, WireValue};

verus! {

/// `serde_json::Value`, carried from the parser to the copy into [`Json`].
#[verifier::external_type_specification]
#[verifier::external_body]
pub struct ExSerdeJsonValue(serde_json::Value);

/// A JSON document. A number is kept as the text that spells it; the members
/// of an object stand in the order in which `serde_json` hands them out, and
/// no two of them share a key.
#[derive(Debug, PartialEq)]
pub enum Json {
    Null,
    Bool(bool),
    Number(String),
    String(String),
    Array(Vec<Json>),
    Object(Vec<(String, Json)>),
}

/// The document that a `serde_json::Value` holds.
pub uninterp spec fn json_content(value: serde_json::Value) -> Json;

/// The document that `serde_json` reads from a text, or `None` where the
/// text is not JSON.
pub uninterp spec fn json_of_text(text: Seq<char>) -> Option<Json>;

/// The document that `serde_json` reads from bytes, or `None` where the
/// bytes are not JSON.
pub uninterp spec fn json_of_bytes(bytes: Seq<u8>) -> Option<Json>;

/// Calls `serde_json::from_str`. What comes back depends on the text alone:
/// the contract names the document.
#[verifier::external_body]
fn value_from_str(text: &str) -> (r: Option<serde_json::Value>)
    ensures
        match r {
            Some(value) => json_of_text(text@) == Some(json_content(value)),
            None => json_of_text(text@) is None,
        },
{
    serde_json::from_str::<serde_json::Value>(text).ok()
}

/// Calls `serde_json::from_slice`. What comes back depends on the bytes
/// alone: the contract names the document.
#[verifier::external_body]
fn value_from_slice(bytes: &[u8]) -> (r: Option<serde_json::Value>)
    ensures
        match r {
            Some(value) => json_of_bytes(bytes@) == Some(json_content(value)),
            None => json_of_bytes(bytes@) is None,
        },
{
    serde_json::from_slice::<serde_json::Value>(bytes).ok()
}

/// Copies a `serde_json::Value` into a [`Json`], variant by variant; a
/// number by `serde_json::Number`'s `to_string`.
#[verifier::external_body]
fn json_model(value: &serde_json::Value) -> (r: Json)
    ensures
        r == json_content(*value),
{
    match value {
        serde_json::Value::Null => Json::Null,
        serde_json::Value::Bool(b) => Json::Bool(*b),
        serde_json::Value::Number(n) => Json::Number(n.to_string()),
        serde_json::Value::String(s) => Json::String(s.clone()),
        serde_json::Value::Array(a) => Json::Array(a.iter().map(json_model).collect()),
        serde_json::Value::Object(o) => Json::Object(
            o.iter().map(|(k, v)| (k.clone(), json_model(v))).collect(),
        ),
    }
}

/// Where the first member called `key` stands among `members`, if anywhere.
pub open spec fn member_position(members: Seq<(String, Json)>, key: Seq<char>) -> Option<int>
    decreases members.len(),
{
    if members.len() == 0 {
        None
    } else if members[0].0@ == key {
        Some(0)
    } else {
        match member_position(members.skip(1), key) {
            Some(i) => Some(i + 1),
            None => None,
        }
    }
}

impl Json {
    /// Reads a document from a text.
    pub fn parse(text: &str) -> (r: Option<Json>)
        ensures
            r == json_of_text(text@),
    {
        match value_from_str(text) {
            Some(value) => Some(json_model(&value)),
            None => None,
        }
    }

    /// Reads a document from bytes.
    pub fn parse_bytes(bytes: &[u8]) -> (r: Option<Json>)
        ensures
            r == json_of_bytes(bytes@),
    {
        match value_from_slice(bytes) {
            Some(value) => Some(json_model(&value)),
            None => None,
        }
    }

    /// The member called `key` of an object; `None` for a missing member and
    /// for a document that is no object.
    pub open spec fn member(self, key: Seq<char>) -> Option<Json> {
        match self {
            Json::Object(members) => match member_position(members@, key) {
                Some(i) => Some(members@[i].1),
                None => None,
            },
            _ => None,
        }
    }

    /// The text of a string document; `None` for any other document.
    pub open spec fn text(self) -> Option<Seq<char>> {
        match self {
            Json::String(s) => Some(s@),
            _ => None,
        }
    }

    /// The items of an array document; `None` for any other document.
    pub open spec fn items(self) -> Option<Seq<Json>> {
        match self {
            Json::Array(items) => Some(items@),
            _ => None,
        }
    }

    /// The member called `key` of an object.
    pub fn get(&self, key: &str) -> (r: Option<&Json>)
        ensures
            match r {
                Some(found) => self.member(key@) == Some(*found),
                None => self.member(key@) is None,
            },
    {
        match self {
            Json::Object(members) => {
                let wanted = String::from_str(key);
                let mut i: usize = 0;
                proof {
                    assert(members@.skip(0) == members@);
                }
                while i < members.len()
                    invariant
                        i <= members.len(),
                        wanted@ == key@,
                        *self == Json::Object(*members),
                        member_position(members@, key@) == match member_position(
                            members@.skip(i as int),
                            key@,
                        ) {
                            Some(k) => Some(k + i),
                            None => None,
                        },
                    decreases members.len() - i,
                {
                    proof {
                        assert(members@.skip(i as int)[0] == members@[i as int]);
                        assert(members@.skip(i as int).skip(1) == members@.skip(i + 1));
                    }
                    if members[i].0 == wanted {
                        proof {
                            assert(member_position(members@.skip(i as int), key@) == Some(0int));
                            assert(member_position(members@, key@) == Some(i as int));
                        }
                        return Some(&members[i].1);
                    }
                    i = i + 1;
                }
                None
            },
            _ => None,
        }
    }

    /// The text of a string document.
    pub fn as_str(&self) -> (r: Option<&str>)
        ensures
            match r {
                Some(s) => self.text() == Some(s@),
                None => self.text() is None,
            },
    {
        match self {
            Json::String(s) => Some(s.as_str()),
            _ => None,
        }
    }

    /// The items of an array document.
    pub fn as_array(&self) -> (r: Option<&Vec<Json>>)
        ensures
            match r {
                Some(items) => self.items() == Some(items@),
                None => self.items() is None,
            },
    {
        match self {
            Json::Array(items) => Some(items),
            _ => None,
        }
    }
}

/// The JSON document that `value` holds as text or as bytes.
///
/// A value that is neither a non-null string nor non-null bytes is a
/// mismatch; text or bytes that are not JSON are invalid.
pub fn as_json(value: &DataType) -> (r: Result<Json, ConvertError>)
    ensures
        match value@ {
            WireValue::Str(Some(raw)) => match json_of_text(raw) {
                Some(doc) => r == Ok::<Json, ConvertError>(doc),
                None => r is Err && r->Err_0@ == ConvertErrorView::InvalidJson,
            },
            WireValue::Binary(Some(bytes)) => match json_of_bytes(bytes) {
                Some(doc) => r == Ok::<Json, ConvertError>(doc),
                None => r is Err && r->Err_0@ == ConvertErrorView::InvalidJson,
            },
            other => r is Err && r->Err_0@ == (ConvertErrorView::Mismatch {
                expected: WireKind::Json,
                got: other.kind(),
            }),
        },
{
    match value {
        DataType::Str(Some(raw)) => match Json::parse(raw.as_str()) {
            Some(doc) => Ok(doc),
            None => Err(ConvertError::InvalidJson),
        },
        DataType::Binary(Some(bytes)) => match Json::parse_bytes(bytes.as_slice()) {
            Some(doc) => Ok(doc),
            None => Err(ConvertError::InvalidJson),
        },
        _ => Err(ConvertError::Mismatch {
            expected: WireKind::Json,
            got: crate::wire::kind_of(value),
        }),
    }
}

} // verus!
