//! JSON values as the selector reads them: parsed by `serde_json`, then held
//! as plain data.
use vstd::prelude::*;
use crate::text::str_eq;

verus! {

/// A JSON value. A number keeps what `as_u64` gives of it; the entries of an
/// object come in `serde_json`'s map order.
#[derive(Debug)]
pub enum Json {
    Null,
    Bool(bool),
    Number(Option<u64>),
    Str(String),
    Array(Vec<Json>),
    Object(Vec<(String, Json)>),
}

/// The value that `serde_json::from_str::<serde_json::Value>` parses from the
/// text, or `None` where it reports an error.
pub uninterp spec fn json_parse(s: Seq<char>) -> Option<Json>;

#[verifier::external_type_specification]
#[verifier::external_body]
/// `serde_json::Value`, carried through opaquely.
pub struct ExJsonValue(serde_json::Value);

/// Parses JSON text.
///
/// Calls `serde_json::from_str::<serde_json::Value>` and converts the value
/// one for one (`json_of_value`). The contract names the result: it depends
/// on the text alone.
#[verifier::external_body]
pub(crate) fn parse_json(s: &str) -> (r: Option<Json>)
    ensures
        r == json_parse(s@),
{
    match serde_json::from_str::<serde_json::Value>(s) {
        Ok(v) => Some(json_of_value(v)),
        Err(_) => None,
    }
}

/// Converts a `serde_json::Value` into a `Json`, variant for variant, keeping
/// `Number::as_u64` of a number. It promises nothing; `parse_json` is the only
/// caller.
#[verifier::external_body]
fn json_of_value(v: serde_json::Value) -> Json {
    match v {
        serde_json::Value::Null => Json::Null,
        serde_json::Value::Bool(b) => Json::Bool(b),
        serde_json::Value::Number(n) => Json::Number(n.as_u64()),
        serde_json::Value::String(s) => Json::Str(s),
        serde_json::Value::Array(a) => Json::Array(a.into_iter().map(json_of_value).collect()),
        serde_json::Value::Object(o) => Json::Object(
            o.into_iter().map(|(k, v)| (k, json_of_value(v))).collect(),
        ),
    }
}

/// The value of the first entry of `es` with key `key`.
pub open spec fn entry_lookup(es: Seq<(String, Json)>, key: Seq<char>) -> Option<Json>
    decreases es.len(),
{
    if es.len() == 0 {
        None
    } else {
        match entry_lookup(es.drop_last(), key) {
            Some(v) => Some(v),
            None => if es.last().0@ == key {
                Some(es.last().1)
            } else {
                None
            },
        }
    }
}

/// `value.get(key)`: the member `key` of an object, `None` for anything else.
pub open spec fn json_get(j: Json, key: Seq<char>) -> Option<Json> {
    match j {
        Json::Object(es) => entry_lookup(es@, key),
        _ => None,
    }
}

/// `value.as_str()`.
pub open spec fn json_str(j: Json) -> Option<Seq<char>> {
    match j {
        Json::Str(s) => Some(s@),
        _ => None,
    }
}

/// The string member `key` of an object.
pub open spec fn json_get_str(j: Json, key: Seq<char>) -> Option<Seq<char>> {
    match json_get(j, key) {
        Some(v) => json_str(v),
        None => None,
    }
}

proof fn lemma_entry_lookup(es: Seq<(String, Json)>, key: Seq<char>)
    ensures
        entry_lookup(es, key) matches Some(v) ==> exists|i: int|
            0 <= i < es.len() && es[i].0@ == key && es[i].1 == v && forall|j: int|
                0 <= j < i ==> es[j].0@ != key,
        entry_lookup(es, key) is None ==> forall|j: int| 0 <= j < es.len() ==> es[j].0@ != key,
    decreases es.len(),
{
    if es.len() > 0 {
        lemma_entry_lookup(es.drop_last(), key);
        assert forall|j: int| 0 <= j < es.len() - 1 implies es.drop_last()[j] == es[j] by {}
        if entry_lookup(es.drop_last(), key) is None && es.last().0@ == key {
            assert(es[es.len() - 1].0@ == key);
        }
    }
}

/// The member `key` of an object.
pub fn get<'a>(j: &'a Json, key: &str) -> (r: Option<&'a Json>)
    ensures
        match r {
            Some(v) => json_get(*j, key@) == Some(*v),
            None => json_get(*j, key@) is None,
        },
{
    match j {
        Json::Object(es) => {
            proof {
                lemma_entry_lookup(es@, key@);
            }
            let mut i: usize = 0;
            while i < es.len()
                invariant
                    *j == Json::Object(*es),
                    i <= es@.len(),
                    forall|k: int| 0 <= k < i ==> es@[k].0@ != key@,
                decreases es@.len() - i,
            {
                if str_eq(es[i].0.as_str(), key) {
                    proof {
                        lemma_entry_lookup(es@, key@);
                        assert(es@[i as int].0@ == key@);
                        assert(entry_lookup(es@, key@) is Some);
                        if let Some(v) = entry_lookup(es@, key@) {
                            let k = choose|k: int|
                                0 <= k < es@.len() && es@[k].0@ == key@ && es@[k].1 == v
                                    && forall|m: int| 0 <= m < k ==> es@[m].0@ != key@;
                            assert(k == i);
                            assert(v == es@[i as int].1);
                        }
                    }
                    return Some(&es[i].1);
                }
                i = i + 1;
            }
            None
        },
        _ => None,
    }
}

/// The text of a string value.
pub fn as_str(j: &Json) -> (r: Option<&str>)
    ensures
        match r {
            Some(s) => json_str(*j) == Some(s@),
            None => json_str(*j) is None,
        },
{
    match j {
        Json::Str(s) => Some(s.as_str()),
        _ => None,
    }
}

/// The string member `key` of an object.
pub fn get_str<'a>(j: &'a Json, key: &str) -> (r: Option<&'a str>)
    ensures
        match r {
            Some(s) => json_get_str(*j, key@) == Some(s@),
            None => json_get_str(*j, key@) is None,
        },
{
    match get(j, key) {
        Some(v) => as_str(v),
        None => None,
    }
}

} // verus!
