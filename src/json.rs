//! A JSON document as plain values, read and written through serde_json.

use vstd::prelude::*;
use crate::text::{chars_of, copy_str};

verus! {

/// A JSON value. Numbers keep the decimal text that serde_json prints for them;
/// object members keep the order in which serde_json hands them out.
#[derive(Debug)]
pub enum Json {
    Null,
    Bool(bool),
    Number(String),
    Str(String),
    Array(Vec<Json>),
    Object(Vec<(String, Json)>),
}

/// serde_json's own JSON value, which the conversions below move into and out of `Json`.
#[verifier::external_type_specification]
#[verifier::external_body]
pub struct ExValue(serde_json::Value);

/// The value that serde_json reads from a JSON text, if the text is JSON.
pub uninterp spec fn json_parse_of(s: Seq<char>) -> Option<Json>;

/// The compact JSON text that serde_json writes for a value.
pub uninterp spec fn json_text_of(v: Json) -> Seq<char>;

/// The indented JSON text that serde_json writes for a value.
pub uninterp spec fn json_pretty_text_of(v: Json) -> Seq<char>;

/// The first member of `fields` named `key`.
pub open spec fn member(fields: Seq<(String, Json)>, key: Seq<char>) -> Option<Json>
    decreases fields.len(),
{
    if fields.len() == 0 {
        None
    } else if fields[0].0@ == key {
        Some(fields[0].1)
    } else {
        member(fields.drop_first(), key)
    }
}

/// The member `key` of `v`, where `v` is an object that has one.
pub open spec fn json_get(v: Json, key: Seq<char>) -> Option<Json> {
    match v {
        Json::Object(fields) => member(fields@, key),
        _ => None,
    }
}

/// The text of `v`, where `v` is a string.
pub open spec fn json_as_str(v: Json) -> Option<Seq<char>> {
    match v {
        Json::Str(s) => Some(s@),
        _ => None,
    }
}

/// The text of the member `key` of `v`, where it is a string.
pub open spec fn json_str_at(v: Json, key: Seq<char>) -> Option<Seq<char>> {
    match json_get(v, key) {
        Some(m) => json_as_str(m),
        None => None,
    }
}

/// Relies on `serde_json::from_str`: the JSON value that `s` holds, or `None`
/// where `s` is not a JSON text.
#[verifier::external_body]
pub(crate) fn parse_json(s: &str) -> (r: Option<Json>)
    ensures
        r == json_parse_of(s@),
{
    match serde_json::from_str::<serde_json::Value>(s) {
        Ok(v) => Some(Json::from_serde(v)),
        Err(_) => None,
    }
}

/// Relies on `serde_json::Value`'s `Display`: the compact JSON text of `v`.
#[verifier::external_body]
pub(crate) fn json_text(v: &Json) -> (r: String)
    ensures
        r@ == json_text_of(*v),
{
    v.to_serde().to_string()
}

/// Relies on `serde_json::to_string_pretty`: the indented JSON text of `v`.
/// A `serde_json::Value` always serializes, so the error arm is never taken.
/// The text is JSON that `serde_json::from_str` reads back: an object of one
/// string member comes back with that member.
#[verifier::external_body]
pub(crate) fn json_pretty_text(v: &Json) -> (r: String)
    ensures
        r@ == json_pretty_text_of(*v),
        v is Object && v->Object_0@.len() == 1 && v->Object_0@[0].1 is Str ==> (json_parse_of(
            r@,
        ) is Some && json_str_at(json_parse_of(r@)->0, v->Object_0@[0].0@) == json_as_str(
            v->Object_0@[0].1,
        )),
{
    match serde_json::to_string_pretty(&v.to_serde()) {
        Ok(s) => s,
        Err(_) => String::new(),
    }
}

impl Json {
    /// Moves a `serde_json::Value` into a `Json`, variant for variant.
    #[verifier::external_body]
    fn from_serde(v: serde_json::Value) -> Json {
        match v {
            serde_json::Value::Null => Json::Null,
            serde_json::Value::Bool(b) => Json::Bool(b),
            serde_json::Value::Number(n) => Json::Number(n.to_string()),
            serde_json::Value::String(s) => Json::Str(s),
            serde_json::Value::Array(a) => Json::Array(a.into_iter().map(Json::from_serde).collect()),
            serde_json::Value::Object(m) => Json::Object(
                m.into_iter().map(|(k, x)| (k, Json::from_serde(x))).collect(),
            ),
        }
    }

    /// Copies a `Json` into a `serde_json::Value`, variant for variant; number
    /// text that is not a JSON number becomes `null`.
    #[verifier::external_body]
    fn to_serde(&self) -> serde_json::Value {
        match self {
            Json::Null => serde_json::Value::Null,
            Json::Bool(b) => serde_json::Value::Bool(*b),
            Json::Number(t) => match t.parse::<serde_json::Number>() {
                Ok(n) => serde_json::Value::Number(n),
                Err(_) => serde_json::Value::Null,
            },
            Json::Str(s) => serde_json::Value::String(s.clone()),
            Json::Array(a) => serde_json::Value::Array(a.iter().map(Json::to_serde).collect()),
            Json::Object(m) => serde_json::Value::Object(
                m.iter().map(|(k, x)| (k.clone(), x.to_serde())).collect(),
            ),
        }
    }

    /// The member `key` of this value, where it is an object that has one.
    pub fn get<'a>(&'a self, key: &str) -> (r: Option<&'a Json>)
        ensures
            match r {
                Some(m) => json_get(*self, key@) == Some(*m),
                None => json_get(*self, key@) is None,
            },
    {
        match self {
            Json::Object(fields) => {
                let mut i: usize = 0;
                proof {
                    assert(fields@.skip(0) =~= fields@);
                }
                while i < fields.len()
                    invariant
                        i <= fields.len(),
                        json_get(*self, key@) == member(fields@, key@),
                        member(fields@, key@) == member(fields@.skip(i as int), key@),
                    decreases fields.len() - i,
                {
                    proof {
                        assert(fields@.skip(i as int).drop_first() =~= fields@.skip(i + 1));
                        assert(fields@.skip(i as int)[0] == fields@[i as int]);
                    }
                    if str_eq(fields[i].0.as_str(), key) {
                        return Some(&fields[i].1);
                    }
                    i += 1;
                }
                None
            },
            _ => None,
        }
    }

    /// The text of this value, where it is a string.
    pub fn as_str<'a>(&'a self) -> (r: Option<&'a str>)
        ensures
            match r {
                Some(s) => json_as_str(*self) == Some(s@),
                None => json_as_str(*self) is None,
            },
    {
        match self {
            Json::Str(s) => Some(s.as_str()),
            _ => None,
        }
    }

    /// A copy of the text of the member `key`, where it is a string.
    pub fn str_at(&self, key: &str) -> (r: Option<String>)
        ensures
            match r {
                Some(s) => json_str_at(*self, key@) == Some(s@),
                None => json_str_at(*self, key@) is None,
            },
    {
        match self.get(key) {
            Some(m) => match m.as_str() {
                Some(s) => Some(copy_str(s)),
                None => None,
            },
            None => None,
        }
    }
}

/// Whether `a` and `b` hold the same characters.
pub fn str_eq(a: &str, b: &str) -> (r: bool)
    ensures
        r == (a@ == b@),
{
    let x = chars_of(a);
    let y = chars_of(b);
    if x.len() != y.len() {
        return false;
    }
    let mut i: usize = 0;
    while i < x.len()
        invariant
            i <= x.len() == y.len(),
            x@ == a@,
            y@ == b@,
            forall|j: int| 0 <= j < i ==> x@[j] == y@[j],
        decreases x.len() - i,
    {
        if x[i] != y[i] {
            proof {
                assert(x@[i as int] != y@[i as int]);
            }
            return false;
        }
        i += 1;
    }
    proof {
        assert(x@ =~= y@);
    }
    true
}

} // verus!
