//! JSON values of `serde_json`, seen through a mathematical model.

use vstd::prelude::*;

verus! {

/// What a JSON value is. A number that is no integer is known by its text.
pub enum JsonV {
    Null,
    Bool(bool),
    Int(int),
    Number(Seq<char>),
    Text(Seq<char>),
    Array(Seq<JsonV>),
    Object(Map<Seq<char>, JsonV>),
}

#[verifier::external_type_specification]
#[verifier::external_body]
pub struct ExValue(serde_json::Value);

#[verifier::external_type_specification]
#[verifier::external_body]
#[verifier::reject_recursive_types(K)]
#[verifier::reject_recursive_types(V)]
pub struct ExObject<K, V>(serde_json::Map<K, V>);

/// What a `serde_json::Value` holds.
pub uninterp spec fn json(v: serde_json::Value) -> JsonV;

/// What a `serde_json::Map` holds.
pub uninterp spec fn object(m: serde_json::Map<String, serde_json::Value>) -> Map<Seq<char>, JsonV>;

/// What a list of `serde_json::Value` holds.
pub open spec fn jsons(v: Seq<serde_json::Value>) -> Seq<JsonV> {
    v.map_values(|x: serde_json::Value| json(x))
}

/// The object without fields.
pub open spec fn no_fields() -> Map<Seq<char>, JsonV> {
    Map::empty()
}

/// `serde_json::Value::Null` holds the null value.
#[verifier::external_body]
pub(crate) fn null() -> (r: serde_json::Value)
    ensures
        json(r) == JsonV::Null,
{
    serde_json::Value::Null
}

/// `serde_json::Value::Bool` holds the given truth value.
#[verifier::external_body]
pub(crate) fn boolean(b: bool) -> (r: serde_json::Value)
    ensures
        json(r) == JsonV::Bool(b),
{
    serde_json::Value::Bool(b)
}

/// `serde_json::Value::from` on an `i64` holds the given integer.
#[verifier::external_body]
pub(crate) fn integer(n: i64) -> (r: serde_json::Value)
    ensures
        json(r) == JsonV::Int(n as int),
{
    serde_json::Value::from(n)
}

/// `serde_json::Value::from` on a `u64` holds the given integer.
#[verifier::external_body]
pub(crate) fn unsigned(n: u64) -> (r: serde_json::Value)
    ensures
        json(r) == JsonV::Int(n as int),
{
    serde_json::Value::from(n)
}

/// `serde_json::Value::String` holds the given text.
#[verifier::external_body]
pub(crate) fn text(s: &str) -> (r: serde_json::Value)
    ensures
        json(r) == JsonV::Text(s@),
{
    serde_json::Value::String(s.to_owned())
}

/// `serde_json::Map::new` is empty.
#[verifier::external_body]
pub(crate) fn new_object() -> (r: serde_json::Map<String, serde_json::Value>)
    ensures
        object(r) == no_fields(),
{
    serde_json::Map::new()
}

/// `serde_json::Map::insert` binds the key to the value and leaves the other keys alone.
#[verifier::external_body]
pub(crate) fn insert(
    m: &mut serde_json::Map<String, serde_json::Value>,
    key: &str,
    value: serde_json::Value,
)
    ensures
        object(*final(m)) == object(*old(m)).insert(key@, json(value)),
{
    m.insert(key.to_owned(), value);
}

/// `serde_json::Value::Object` holds what the map holds.
#[verifier::external_body]
pub(crate) fn object_value(m: serde_json::Map<String, serde_json::Value>) -> (r: serde_json::Value)
    ensures
        json(r) == JsonV::Object(object(m)),
{
    serde_json::Value::Object(m)
}

/// `serde_json::Value::Array` holds what the values of the list hold.
#[verifier::external_body]
pub(crate) fn array(v: Vec<serde_json::Value>) -> (r: serde_json::Value)
    ensures
        json(r) == JsonV::Array(jsons(v@)),
{
    serde_json::Value::Array(v)
}

// ---------------------------------------------------------------------------
// Reading
// ---------------------------------------------------------------------------

/// The value of a field of a JSON object; other values have no fields.
pub open spec fn field(v: JsonV, key: Seq<char>) -> Option<JsonV> {
    match v {
        JsonV::Object(m) => if m.contains_key(key) {
            Some(m[key])
        } else {
            None
        },
        _ => None,
    }
}

/// A JSON integer in the range of `i64`.
pub open spec fn int_of(v: JsonV) -> Option<int> {
    match v {
        JsonV::Int(n) => if i64::MIN <= n <= i64::MAX {
            Some(n)
        } else {
            None
        },
        _ => None,
    }
}

/// The integer in a field.
pub open spec fn int_field(v: JsonV, key: Seq<char>) -> Option<int> {
    match field(v, key) {
        Some(x) => int_of(x),
        None => None,
    }
}

/// The text in a field.
pub open spec fn text_field(v: JsonV, key: Seq<char>) -> Option<Seq<char>> {
    match field(v, key) {
        Some(JsonV::Text(s)) => Some(s),
        _ => None,
    }
}

/// The truth value in a field.
pub open spec fn bool_field(v: JsonV, key: Seq<char>) -> Option<bool> {
    match field(v, key) {
        Some(JsonV::Bool(b)) => Some(b),
        _ => None,
    }
}

/// `serde_json::Value::get` with a string finds the field of an object.
#[verifier::external_body]
fn get<'a>(v: &'a serde_json::Value, key: &str) -> (r: Option<&'a serde_json::Value>)
    ensures
        match r {
            Some(x) => field(json(*v), key@) == Some(json(*x)),
            None => field(json(*v), key@) is None,
        },
{
    v.get(key)
}

/// `serde_json::Value::as_i64` gives an integer in the range of `i64`.
#[verifier::external_body]
fn as_i64(v: &serde_json::Value) -> (r: Option<i64>)
    ensures
        match r {
            Some(n) => int_of(json(*v)) == Some(n as int),
            None => int_of(json(*v)) is None,
        },
{
    v.as_i64()
}

/// `serde_json::Value::as_str` gives the text of a string.
#[verifier::external_body]
pub(crate) fn as_str(v: &serde_json::Value) -> (r: Option<&str>)
    ensures
        match r {
            Some(s) => json(*v) == JsonV::Text(s@),
            None => !(json(*v) is Text),
        },
{
    v.as_str()
}

/// `serde_json::Value::as_bool` gives a truth value.
#[verifier::external_body]
fn as_bool(v: &serde_json::Value) -> (r: Option<bool>)
    ensures
        match r {
            Some(b) => json(*v) == JsonV::Bool(b),
            None => !(json(*v) is Bool),
        },
{
    v.as_bool()
}

/// The compact text of a JSON value, as `serde_json` writes it.
pub uninterp spec fn json_text(v: JsonV) -> Seq<char>;

/// The `{}` format of a `serde_json::Value`: the text is a function of the value alone; null, truth
/// values and integers are written as such.
#[verifier::external_body]
pub(crate) fn format(v: &serde_json::Value) -> (r: String)
    ensures
        r@ == json_text(json(*v)),
        json(*v) is Null ==> r@ == "null"@,
        json(*v) == JsonV::Bool(true) ==> r@ == "true"@,
        json(*v) == JsonV::Bool(false) ==> r@ == "false"@,
        json(*v) matches JsonV::Int(n) ==> r@ == crate::text::dec_int(n),
{
    format!("{v}")
}

/// The text of a JSON value: of null, truth values and integers as such, of others as `serde_json`
/// writes it.
pub open spec fn shown(v: JsonV) -> Seq<char> {
    match v {
        JsonV::Null => "null"@,
        JsonV::Bool(b) => if b {
            "true"@
        } else {
            "false"@
        },
        JsonV::Int(n) => crate::text::dec_int(n),
        _ => json_text(v),
    }
}

/// The text of a field; null where there is none.
pub open spec fn shown_field(v: JsonV, key: Seq<char>) -> Seq<char> {
    match field(v, key) {
        Some(x) => shown(x),
        None => "null"@,
    }
}

/// The text of a field; null where there is none.
pub fn show_field(v: &serde_json::Value, key: &str) -> (r: String)
    ensures
        r@ == shown_field(json(*v), key@),
{
    match get(v, key) {
        Some(x) => format(x),
        None => "null".to_owned(),
    }
}

/// `serde_json::Value::clone` holds the same value.
#[verifier::external_body]
pub(crate) fn copy(v: &serde_json::Value) -> (r: serde_json::Value)
    ensures
        json(r) == json(*v),
{
    v.clone()
}

/// `serde_json::Value::as_object_mut` gives the map of an object; what is done to the map is done
/// to the value.
#[verifier::external_body]
pub(crate) fn as_object_mut(v: &mut serde_json::Value) -> (r: Option<
    &mut serde_json::Map<String, serde_json::Value>,
>)
    ensures
        match r {
            Some(m) => json(*old(v)) == JsonV::Object(object(*m)) && json(*final(v))
                == JsonV::Object(object(*final(m))),
            None => !(json(*old(v)) is Object) && *final(v) == *old(v),
        },
{
    v.as_object_mut()
}

/// The integer in a field of a value.
pub fn get_i64(v: &serde_json::Value, key: &str) -> (r: Option<i64>)
    ensures
        match r {
            Some(n) => int_field(json(*v), key@) == Some(n as int),
            None => int_field(json(*v), key@) is None,
        },
{
    match get(v, key) {
        Some(x) => as_i64(x),
        None => None,
    }
}

/// The text in a field of a value.
pub fn get_str<'a>(v: &'a serde_json::Value, key: &str) -> (r: Option<&'a str>)
    ensures
        match r {
            Some(s) => text_field(json(*v), key@) == Some(s@),
            None => text_field(json(*v), key@) is None,
        },
{
    match get(v, key) {
        Some(x) => as_str(x),
        None => None,
    }
}

/// The truth value in a field of a value.
pub fn get_bool(v: &serde_json::Value, key: &str) -> (r: Option<bool>)
    ensures
        match r {
            Some(b) => bool_field(json(*v), key@) == Some(b),
            None => bool_field(json(*v), key@) is None,
        },
{
    match get(v, key) {
        Some(x) => as_bool(x),
        None => None,
    }
}

/// A list of texts as JSON values.
pub open spec fn text_values(v: Seq<Seq<char>>) -> Seq<JsonV> {
    v.map_values(|s: Seq<char>| JsonV::Text(s))
}

/// The array of a list of texts.
pub fn text_array(v: &Vec<String>) -> (r: serde_json::Value)
    ensures
        json(r) == JsonV::Array(text_values(crate::text::views(v@))),
{
    let mut list: Vec<serde_json::Value> = Vec::new();
    let ghost all = text_values(crate::text::views(v@));
    let mut i: usize = 0;
    while i < v.len()
        invariant
            i <= v@.len(),
            all == text_values(crate::text::views(v@)),
            jsons(list@) == all.take(i as int),
        decreases v@.len() - i,
    {
        let ghost before = list@;
        list.push(text(v[i].as_str()));
        i += 1;
        assert(jsons(list@) =~= jsons(before).push(all[i - 1]));
        assert(jsons(list@) =~= all.take(i as int));
    }
    assert(all.take(i as int) =~= all);
    array(list)
}

/// A copy of a list of values.
pub fn copy_all(v: &Vec<serde_json::Value>) -> (r: Vec<serde_json::Value>)
    ensures
        jsons(r@) == jsons(v@),
{
    let mut out: Vec<serde_json::Value> = Vec::new();
    let mut i: usize = 0;
    while i < v.len()
        invariant
            i <= v@.len(),
            jsons(out@) == jsons(v@).take(i as int),
        decreases v@.len() - i,
    {
        let ghost before = out@;
        out.push(copy(&v[i]));
        i += 1;
        assert(jsons(out@) =~= jsons(before).push(json(v@[i - 1])));
        assert(jsons(out@) =~= jsons(v@).take(i as int));
    }
    assert(jsons(v@).take(i as int) =~= jsons(v@));
    out
}

// ---------------------------------------------------------------------------
// Laws
// ---------------------------------------------------------------------------

/// A field that is set reads back, and the other fields stay as they are. A value of another kind
/// does not read as a text, a number or a truth value.
pub proof fn law_fields_read_back(
    m: Map<Seq<char>, JsonV>,
    key: Seq<char>,
    other: Seq<char>,
    s: Seq<char>,
    n: i64,
    b: bool,
)
    ensures
        text_field(JsonV::Object(m.insert(key, JsonV::Text(s))), key) == Some(s),
        int_field(JsonV::Object(m.insert(key, JsonV::Int(n as int))), key) == Some(n as int),
        bool_field(JsonV::Object(m.insert(key, JsonV::Bool(b))), key) == Some(b),
        int_field(JsonV::Object(m.insert(key, JsonV::Text(s))), key) is None,
        bool_field(JsonV::Object(m.insert(key, JsonV::Text(s))), key) is None,
        text_field(JsonV::Object(m.insert(key, JsonV::Int(n as int))), key) is None,
        text_field(JsonV::Object(m.insert(key, JsonV::Null)), key) is None,
        other != key ==> field(JsonV::Object(m.insert(key, JsonV::Text(s))), other) == field(
            JsonV::Object(m),
            other,
        ),
        field(JsonV::Object(no_fields()), key) is None,
{
}

/// Numbers and truth values are shown as they are written, and a field that is not there as null.
pub proof fn law_values_are_shown(m: Map<Seq<char>, JsonV>, key: Seq<char>, n: int)
    ensures
        shown_field(JsonV::Object(m.insert(key, JsonV::Int(n))), key) == crate::text::dec_int(n),
        shown_field(JsonV::Object(m.insert(key, JsonV::Bool(true))), key) == "true"@,
        shown_field(JsonV::Object(m.insert(key, JsonV::Bool(false))), key) == "false"@,
        shown_field(JsonV::Object(m.insert(key, JsonV::Null)), key) == "null"@,
        !m.contains_key(key) ==> shown_field(JsonV::Object(m), key) == "null"@,
{
}

} // verus!
