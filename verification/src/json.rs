//! JSON documents as plain data.
//!
//! The weather providers answer with JSON text.  `serde_json` decides whether
//! the text is well-formed and parses it; the parsed document is then carried
//! over, node for node, into the plain tree [`Json`], which the rest of the
//! crate reads through verified lookups.  A number node keeps the decimal
//! text that `serde_json` renders for it, to be given meaning by
//! [`crate::numbers`]; nothing else of the document is interpreted here.

use vstd::prelude::*;

verus! {

/// A JSON document as a tree of plain values.
#[derive(Debug)]
pub enum Json {
    /// The JSON `null`.
    Null,
    /// A JSON boolean.
    Bool(bool),
    /// A JSON number, kept as the bytes of its decimal text.
    Num(Vec<u8>),
    /// A JSON string.
    Str(String),
    /// A JSON array, in document order.
    Arr(Vec<Json>),
    /// A JSON object: keys with their values, in the order `serde_json`
    /// hands them out (keys are unique).
    Obj(Vec<(String, Json)>),
}

/// The document that `text` parses to, or `None` when `text` is not
/// well-formed JSON.  The parse is a function of the text alone; this name
/// stands for its result, and [`parse_json`] is the only place that produces
/// it.
pub uninterp spec fn json_of(text: Seq<char>) -> Option<Json>;

#[verifier::external_type_specification]
#[verifier::external_body]
pub struct ExValue(serde_json::Value);

/// Relies on `serde_json::Value`: carries a parsed document over into the
/// plain tree, one variant at a time.  A number becomes the decimal text
/// that `serde_json::Number`'s rendering gives it; arrays and objects keep
/// their order.  Only [`parse_json`] calls this.
#[verifier::external_body]
fn json_from_value(v: &serde_json::Value) -> Json {
    match v {
        serde_json::Value::Null => Json::Null,
        serde_json::Value::Bool(b) => Json::Bool(*b),
        serde_json::Value::Number(n) => Json::Num(n.to_string().into_bytes()),
        serde_json::Value::String(s) => Json::Str(s.clone()),
        serde_json::Value::Array(a) => Json::Arr(a.iter().map(json_from_value).collect()),
        serde_json::Value::Object(m) => Json::Obj(
            m.iter().map(|(k, x)| (k.clone(), json_from_value(x))).collect(),
        ),
    }
}

/// Relies on `serde_json::from_str`: decides whether `text` is well-formed
/// JSON and, when it is, yields the parsed document as a plain tree.  The
/// result is a function of the text alone, named [`json_of`].
#[verifier::external_body]
pub(crate) fn parse_json(text: &str) -> (r: Option<Json>)
    ensures
        r == json_of(text@),
{
    match serde_json::from_str::<serde_json::Value>(text) {
        Ok(v) => Some(json_from_value(&v)),
        Err(_) => None,
    }
}

/// The value under `key` in the pair list `pairs`: the first pair whose key
/// matches.
pub open spec fn spec_pairs_get(pairs: Seq<(String, Json)>, key: Seq<char>) -> Option<Json>
    decreases pairs.len(),
{
    if pairs.len() == 0 {
        None
    } else if pairs.first().0@ == key {
        Some(pairs.first().1)
    } else {
        spec_pairs_get(pairs.drop_first(), key)
    }
}

/// The value under `key` when `j` is an object that has it.
pub open spec fn spec_obj_get(j: Json, key: Seq<char>) -> Option<Json> {
    match j {
        Json::Obj(pairs) => spec_pairs_get(pairs@, key),
        _ => None,
    }
}

/// The elements when `j` is an array.
pub open spec fn spec_arr_elems(j: Json) -> Option<Seq<Json>> {
    match j {
        Json::Arr(items) => Some(items@),
        _ => None,
    }
}

/// The decimal text when `j` is a number.
pub open spec fn spec_num_text(j: Json) -> Option<Seq<u8>> {
    match j {
        Json::Num(text) => Some(text@),
        _ => None,
    }
}

/// The number text under `key` when `j` is an object holding a number
/// there.
pub open spec fn spec_num_text_at(j: Json, key: Seq<char>) -> Option<Seq<u8>> {
    match spec_obj_get(j, key) {
        Some(v) => spec_num_text(v),
        None => None,
    }
}

/// Looks `key` up in `j`, which must be an object for the lookup to yield
/// anything.
pub fn obj_get<'a>(j: &'a Json, key: &str) -> (r: Option<&'a Json>)
    ensures
        match r {
            Some(v) => spec_obj_get(*j, key@) == Some(*v),
            None => spec_obj_get(*j, key@) is None,
        },
{
    match j {
        Json::Obj(pairs) => {
            let key_string: String = key.to_owned();
            let n = pairs.len();
            let mut i: usize = 0;
            proof {
                assert(spec_obj_get(*j, key@) == spec_pairs_get(pairs@, key@));
                assert(pairs@.skip(0) =~= pairs@);
            }
            while i < n
                invariant
                    0 <= i <= n,
                    n == pairs@.len(),
                    key_string@ == key@,
                    spec_obj_get(*j, key@) == spec_pairs_get(pairs@, key@),
                    spec_pairs_get(pairs@, key@) == spec_pairs_get(pairs@.skip(i as int), key@),
                decreases n - i,
            {
                proof {
                    assert(pairs@.skip(i as int).first() == pairs@[i as int]);
                    assert(pairs@.skip(i as int).drop_first() =~= pairs@.skip(i + 1));
                }
                if pairs[i].0 == key_string {
                    proof {
                        assert(spec_pairs_get(pairs@.skip(i as int), key@) == Some(
                            pairs@[i as int].1,
                        ));
                    }
                    return Some(&pairs[i].1);
                }
                i = i + 1;
            }
            proof {
                assert(pairs@.skip(n as int) =~= Seq::<(String, Json)>::empty());
            }
            None
        },
        _ => None,
    }
}

/// The elements of `j`, which must be an array for the read to yield
/// anything.
pub fn arr_elems<'a>(j: &'a Json) -> (r: Option<&'a Vec<Json>>)
    ensures
        match r {
            Some(v) => spec_arr_elems(*j) == Some(v@),
            None => spec_arr_elems(*j) is None,
        },
{
    match j {
        Json::Arr(items) => Some(items),
        _ => None,
    }
}

/// The decimal text of `j`, which must be a number for the read to yield
/// anything.
pub fn num_text<'a>(j: &'a Json) -> (r: Option<&'a Vec<u8>>)
    ensures
        match r {
            Some(v) => spec_num_text(*j) == Some(v@),
            None => spec_num_text(*j) is None,
        },
{
    match j {
        Json::Num(text) => Some(text),
        _ => None,
    }
}

/// The number text under `key` of the object `j`.
pub fn num_text_at<'a>(j: &'a Json, key: &str) -> (r: Option<&'a Vec<u8>>)
    ensures
        match r {
            Some(v) => spec_num_text_at(*j, key@) == Some(v@),
            None => spec_num_text_at(*j, key@) is None,
        },
{
    match obj_get(j, key) {
        Some(v) => num_text(v),
        None => None,
    }
}

} // verus!
