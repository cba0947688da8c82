//! The mathematical model of the JSON values that travel on the wire, and
//! the trusted boundary to serde_json, which parses, serializes and stores
//! them.  A `serde_json::Value` is opaque to the verifier; `value_model`
//! names what it holds, and every trusted item below speaks of that name.

use vstd::prelude::*;
use crate::digits::dec_int;

verus! {

#[verifier::external_type_specification]
#[verifier::external_body]
pub struct ExValue(serde_json::Value);

/// The shape of one JSON value.  A number is carried as its canonical
/// serde_json rendering, so integers in range read back exactly through
/// `dec_int` while other numbers stay abstract text.
pub enum JsonData {
    Null,
    Bool(bool),
    Num(Seq<char>),
    Text(Seq<char>),
    Arr(Seq<JsonData>),
    Obj(Map<Seq<char>, JsonData>),
}

/// What a `serde_json::Value` holds.
pub uninterp spec fn value_model(v: serde_json::Value) -> JsonData;

/// What `serde_json::from_str::<Value>` yields on a text, `None` where the
/// text is not one well-formed JSON value.
pub uninterp spec fn parse_result(s: Seq<char>) -> Option<JsonData>;

/// The compact JSON text of a value of the given shape, as serde_json
/// serializes it; object keys appear in sorted order, so the text is a
/// function of the shape alone.
pub uninterp spec fn json_text(d: JsonData) -> Seq<char>;

/// What `str::to_lowercase` yields; it depends on the characters alone.
pub uninterp spec fn lower_of(s: Seq<char>) -> Seq<char>;

/// Relies on `serde_json::from_str::<Value>`: parses one complete JSON
/// text (trailing whitespace allowed), deterministically.
#[verifier::external_body]
pub(crate) fn parse_value(s: &str) -> (r: Result<serde_json::Value, String>)
    ensures
        match r {
            Ok(v) => parse_result(s@) == Some(value_model(v)),
            Err(_) => parse_result(s@) is None,
        },
{
    match serde_json::from_str::<serde_json::Value>(s) {
        Ok(v) => Ok(v),
        Err(e) => Err(e.to_string()),
    }
}

/// Relies on `Value::get` with a string index: looks the key up when the
/// value is an object, and returns `None` on every other shape.
#[verifier::external_body]
pub(crate) fn value_field<'a>(v: &'a serde_json::Value, key: &str) -> (r: Option<
    &'a serde_json::Value,
>)
    ensures
        match r {
            Some(f) => value_model(*v) matches JsonData::Obj(m) && m.dom().contains(key@)
                && value_model(*f) == m[key@],
            None => value_model(*v) matches JsonData::Obj(m) ==> !m.dom().contains(key@),
        },
{
    v.get(key)
}

/// Relies on `Value::is_object`.
#[verifier::external_body]
pub(crate) fn value_is_object(v: &serde_json::Value) -> (r: bool)
    ensures
        r == (value_model(*v) is Obj),
{
    v.is_object()
}

/// Relies on `Value::is_string`.
#[verifier::external_body]
pub(crate) fn value_is_text(v: &serde_json::Value) -> (r: bool)
    ensures
        r == (value_model(*v) is Text),
{
    v.is_string()
}

/// Relies on `Value::is_null`.
#[verifier::external_body]
pub(crate) fn value_is_null(v: &serde_json::Value) -> (r: bool)
    ensures
        r == (value_model(*v) is Null),
{
    v.is_null()
}

/// Relies on `Value::as_i64`: yields the number exactly when it is stored
/// in integer form and fits in an `i64`, which is the case exactly when the
/// number's canonical rendering is the decimal text of an `i64`.
#[verifier::external_body]
pub(crate) fn value_as_i64(v: &serde_json::Value) -> (r: Option<i64>)
    ensures
        match r {
            Some(i) => value_model(*v) == JsonData::Num(dec_int(i as int)),
            None => forall|i: i64| value_model(*v) != JsonData::Num(dec_int(i as int)),
        },
{
    v.as_i64()
}

/// Relies on `Value::as_bool`.
#[verifier::external_body]
pub(crate) fn value_as_bool(v: &serde_json::Value) -> (r: Option<bool>)
    ensures
        match r {
            Some(b) => value_model(*v) == JsonData::Bool(b),
            None => !(value_model(*v) is Bool),
        },
{
    v.as_bool()
}

/// Relies on `Value::as_str` (and `str::to_owned` to detach the payload).
#[verifier::external_body]
pub(crate) fn value_as_text(v: &serde_json::Value) -> (r: Option<String>)
    ensures
        match r {
            Some(s) => value_model(*v) == JsonData::Text(s@),
            None => !(value_model(*v) is Text),
        },
{
    v.as_str().map(|s| s.to_owned())
}

/// Relies on `Value::clone`.
#[verifier::external_body]
pub(crate) fn value_clone(v: &serde_json::Value) -> (r: serde_json::Value)
    ensures
        value_model(r) == value_model(*v),
{
    v.clone()
}

/// Relies on `Value::Null` being the null value.
#[verifier::external_body]
pub(crate) fn null_value() -> (r: serde_json::Value)
    ensures
        value_model(r) == JsonData::Null,
{
    serde_json::Value::Null
}

/// Relies on the `Display` impl of `Value`: the compact JSON text.
#[verifier::external_body]
pub(crate) fn value_text(v: &serde_json::Value) -> (r: String)
    ensures
        r@ == json_text(value_model(*v)),
{
    v.to_string()
}

/// Relies on `Value::as_object` and `Map::iter`: hands the key/value pairs
/// of a JSON object out as plain pairs.
#[verifier::external_body]
pub(crate) fn object_entries(v: &serde_json::Value) -> (r: Option<
    Vec<(String, serde_json::Value)>,
>)
    ensures
        match r {
            Some(pairs) => value_model(*v) matches JsonData::Obj(m) && {
                &&& forall|i: int, j: int|
                    0 <= i < j < pairs@.len() ==> (#[trigger] pairs@[i]).0@ != (
                    #[trigger] pairs@[j]).0@
                &&& forall|i: int|
                    0 <= i < pairs@.len() ==> m.dom().contains((#[trigger] pairs@[i]).0@)
                        && m[pairs@[i].0@] == value_model(pairs@[i].1)
                &&& forall|k: Seq<char>|
                    m.dom().contains(k) ==> exists|i: int|
                        0 <= i < pairs@.len() && (#[trigger] pairs@[i]).0@ == k
            },
            None => !(value_model(*v) is Obj),
        },
{
    v.as_object().map(|m| m.iter().map(|(k, val)| (k.clone(), val.clone())).collect())
}

/// Relies on `Value::as_array`: hands the elements of a JSON array out.
#[verifier::external_body]
pub(crate) fn array_elems(v: &serde_json::Value) -> (r: Option<Vec<serde_json::Value>>)
    ensures
        match r {
            Some(elems) => value_model(*v) matches JsonData::Arr(a) && elems@.len() == a.len()
                && forall|i: int|
                0 <= i < a.len() ==> value_model(#[trigger] elems@[i]) == a[i],
            None => !(value_model(*v) is Arr),
        },
{
    v.as_array().map(|a| a.iter().map(|e| e.clone()).collect())
}

/// Relies on `str::to_lowercase`.
#[verifier::external_body]
pub(crate) fn lowercase(s: &str) -> (r: String)
    ensures
        r@ == lower_of(s@),
{
    s.to_lowercase()
}

} // verus!
