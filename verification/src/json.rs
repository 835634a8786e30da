//! The library's model of a JSON value, and the trusted boundary to
//! serde_json, which does the actual parsing and serialization.

use vstd::prelude::*;

verus! {

/// A JSON value as the library models it. Object fields are a sequence of
/// key-value pairs in the decoder's key order; numbers are carried opaquely,
/// since no extraction rule reads one.
pub enum Json {
    Null,
    Bool(bool),
    Num(serde_json::Number),
    Str(String),
    Arr(Vec<Json>),
    Obj(Vec<(String, Json)>),
}

/// The first binding of `key` among an object's fields.
pub open spec fn lookup(fields: Seq<(String, Json)>, key: Seq<char>) -> Option<Json>
    decreases fields.len(),
{
    if fields.len() == 0 {
        None
    } else if fields[0].0@ == key {
        Some(fields[0].1)
    } else {
        lookup(fields.drop_first(), key)
    }
}

/// The value under `key` when `j` is an object that binds it.
pub open spec fn get_key(j: Json, key: Seq<char>) -> Option<Json> {
    match j {
        Json::Obj(fields) => lookup(fields@, key),
        _ => None,
    }
}

/// The character content of `j` when it is a string.
pub open spec fn str_value(j: Json) -> Option<Seq<char>> {
    match j {
        Json::Str(s) => Some(s@),
        _ => None,
    }
}

/// The string under `key` when `j` is an object binding `key` to a string.
pub open spec fn get_str(j: Json, key: Seq<char>) -> Option<Seq<char>> {
    match get_key(j, key) {
        Some(v) => str_value(v),
        None => None,
    }
}

/// Whether two string slices hold the same characters.
pub fn str_eq(a: &str, b: &str) -> (r: bool)
    ensures
        r == (a@ == b@),
{
    let alen = a.unicode_len();
    let blen = b.unicode_len();
    if alen != blen {
        return false;
    }
    let mut i: usize = 0;
    while i < alen
        invariant
            alen == a@.len(),
            blen == b@.len(),
            alen == blen,
            i <= alen,
            forall|k: int| 0 <= k < i ==> a@[k] == b@[k],
        decreases alen - i,
    {
        if a.get_char(i) != b.get_char(i) {
            return false;
        }
        i += 1;
    }
    proof {
        assert(a@ =~= b@);
    }
    true
}

/// The first binding of `key` among an object's fields.
pub fn obj_get<'a>(fields: &'a Vec<(String, Json)>, key: &str) -> (r: Option<&'a Json>)
    ensures
        match r {
            Some(v) => lookup(fields@, key@) == Some(*v),
            None => lookup(fields@, key@) is None,
        },
{
    let n = fields.len();
    let mut i: usize = 0;
    proof {
        assert(fields@.skip(0) =~= fields@);
    }
    while i < n
        invariant
            n == fields@.len(),
            i <= n,
            lookup(fields@.skip(i as int), key@) == lookup(fields@, key@),
        decreases n - i,
    {
        proof {
            assert(fields@.skip(i as int)[0] == fields@[i as int]);
        }
        if str_eq(fields[i].0.as_str(), key) {
            return Some(&fields[i].1);
        }
        proof {
            assert(fields@.skip(i as int).drop_first() =~= fields@.skip(i + 1));
        }
        i += 1;
    }
    proof {
        assert(fields@.skip(n as int) =~= Seq::<(String, Json)>::empty());
    }
    None
}

/// The value under `key` when `j` is an object that binds it.
pub fn get<'a>(j: &'a Json, key: &str) -> (r: Option<&'a Json>)
    ensures
        match r {
            Some(v) => get_key(*j, key@) == Some(*v),
            None => get_key(*j, key@) is None,
        },
{
    match j {
        Json::Obj(fields) => obj_get(fields, key),
        _ => None,
    }
}

/// The string under `key` when `j` is an object binding `key` to a string.
pub fn get_string<'a>(j: &'a Json, key: &str) -> (r: Option<&'a String>)
    ensures
        match r {
            Some(s) => get_str(*j, key@) == Some(s@),
            None => get_str(*j, key@) is None,
        },
{
    match get(j, key) {
        Some(Json::Str(s)) => Some(s),
        _ => None,
    }
}

#[verifier::external_type_specification]
#[verifier::external_body]
pub struct ExValue(serde_json::Value);

#[verifier::external_type_specification]
#[verifier::external_body]
pub struct ExNumber(serde_json::Number);

/// Carries a parsed serde_json value tree over into the library's own value
/// type, one variant for one variant; object fields keep the map's key order.
#[verifier::external_body]
fn json_of_value(v: serde_json::Value) -> Json {
    match v {
        serde_json::Value::Null => Json::Null,
        serde_json::Value::Bool(b) => Json::Bool(b),
        serde_json::Value::Number(n) => Json::Num(n),
        serde_json::Value::String(s) => Json::Str(s),
        serde_json::Value::Array(a) => Json::Arr(a.into_iter().map(json_of_value).collect()),
        serde_json::Value::Object(m) => Json::Obj(
            m.into_iter().map(|(k, x)| (k, json_of_value(x))).collect(),
        ),
    }
}

/// Carries one of the library's values back into a serde_json value tree,
/// one variant for one variant, so that serde_json can serialize it.
#[verifier::external_body]
fn value_of_json(j: &Json) -> serde_json::Value {
    match j {
        Json::Null => serde_json::Value::Null,
        Json::Bool(b) => serde_json::Value::Bool(*b),
        Json::Num(n) => serde_json::Value::Number(n.clone()),
        Json::Str(s) => serde_json::Value::String(s.clone()),
        Json::Arr(a) => serde_json::Value::Array(a.iter().map(value_of_json).collect()),
        Json::Obj(f) => serde_json::Value::Object(
            f.iter().map(|(k, x)| (k.clone(), value_of_json(x))).collect(),
        ),
    }
}

/// The value tree that the JSON grammar gives a text, when the text parses.
pub uninterp spec fn json_of(s: Seq<char>) -> Option<Json>;

/// Relies on serde_json::from_str: whether a text parses, and what it parses
/// to, depend on the text alone. The parsed tree is carried over into the
/// library's value type with the decoder's natural (sorted) object key order.
#[verifier::external_body]
pub fn parse_json(s: &str) -> (r: Option<Json>)
    ensures
        r == json_of(s@),
{
    match serde_json::from_str::<serde_json::Value>(s) {
        Ok(v) => Some(json_of_value(v)),
        Err(_) => None,
    }
}

/// The one-line JSON text that serialization gives a value.
pub uninterp spec fn json_text(j: Json) -> Seq<char>;

/// Relies on serde_json::to_string: the compact serialization of a value
/// depends on the value alone, and never holds a control character, since
/// string contents escape them and the surrounding syntax adds none.
#[verifier::external_body]
pub fn to_text(j: &Json) -> (r: String)
    ensures
        r@ == json_text(*j),
        forall|i: int| 0 <= i < r@.len() ==> r@[i] != '\n',
{
    match serde_json::to_string(&value_of_json(j)) {
        Ok(s) => s,
        Err(_) => String::new(),
    }
}

} // verus!
