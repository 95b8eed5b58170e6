//! A JSON value tree owned by the library, its mathematical model, and the
//! bridge to JSON text.

use crate::ast::RapidRecastDefinition;
use crate::codec::{definition_json, definition_of, definition_plain};
use crate::laws::lemma_definition_plain;
use crate::decode::definition_from_value;
use crate::encode::definition_value;
use crate::error::{DecodeError, EncodeError};
use crate::{ParseRRDL, SaveRRDL};
use vstd::prelude::*;

verus! {

/// A JSON value.
#[derive(Debug, PartialEq)]
pub enum JsonValue {
    /// `null`
    Null,
    /// `true` or `false`
    Bool(bool),
    /// A number, as its shortest JSON text (`7`, `-2`, `0.5`).
    Number(String),
    /// A string.
    String(String),
    /// An array, in order.
    Array(Vec<JsonValue>),
    /// An object, as its entries in order.
    Object(Vec<(String, JsonValue)>),
}

/// The mathematical model of a JSON value.
pub enum Json {
    Null,
    Bool(bool),
    Number(Seq<char>),
    Str(Seq<char>),
    Array(Seq<Json>),
    Object(Seq<(Seq<char>, Json)>),
}

/// The model of a JSON value.
pub open spec fn json_view(v: &JsonValue) -> Json
    decreases v,
{
    match v {
        JsonValue::Null => Json::Null,
        JsonValue::Bool(b) => Json::Bool(*b),
        JsonValue::Number(n) => Json::Number(n@),
        JsonValue::String(s) => Json::Str(s@),
        JsonValue::Array(a) => Json::Array(
            Seq::new(
                a.len() as nat,
                |i: int|
                    if 0 <= i < a.len() {
                        json_view(&a[i])
                    } else {
                        Json::Null
                    },
            ),
        ),
        JsonValue::Object(o) => Json::Object(
            Seq::new(
                o.len() as nat,
                |i: int|
                    if 0 <= i < o.len() {
                        (o[i].0@, json_view(&o[i].1))
                    } else {
                        (Seq::empty(), Json::Null)
                    },
            ),
        ),
    }
}

impl View for JsonValue {
    type V = Json;

    open spec fn view(&self) -> Json {
        json_view(self)
    }
}

/// The model of the entries of an object.
pub open spec fn entries_view(o: Seq<(String, JsonValue)>) -> Seq<(Seq<char>, Json)> {
    Seq::new(o.len(), |i: int| (o[i].0@, json_view(&o[i].1)))
}

/// The value of `key` in the entries of an object: the last entry with that
/// key wins.
pub open spec fn field(entries: Seq<(Seq<char>, Json)>, key: Seq<char>) -> Option<Json>
    decreases entries.len(),
{
    if entries.len() == 0 {
        None
    } else if entries.last().0 == key {
        Some(entries.last().1)
    } else {
        field(entries.drop_last(), key)
    }
}

/// The model of an object or an array, by its parts.
pub proof fn lemma_container_view(v: &JsonValue)
    ensures
        v is Object ==> v@ == Json::Object(entries_view(v->Object_0@)),
        v is Array ==> v@ == Json::Array(v->Array_0@.map_values(|x: JsonValue| x@)),
{
    if let JsonValue::Object(o) = v {
        if let Json::Object(e) = v@ {
            assert(e =~= entries_view(o@));
        }
    }
    if let JsonValue::Array(a) = v {
        if let Json::Array(e) = v@ {
            assert(e =~= a@.map_values(|x: JsonValue| x@));
        }
    }
}

/// An object with the given entries.
pub fn object_of(entries: Vec<(String, JsonValue)>) -> (r: JsonValue)
    ensures
        r@ == Json::Object(entries_view(entries@)),
{
    let r = JsonValue::Object(entries);
    assert(r@ == Json::Object(entries_view(entries@))) by {
        if let Json::Object(e) = r@ {
            assert(e =~= entries_view(entries@));
        }
    }
    r
}

/// An array with the given items.
pub fn array_of(items: Vec<JsonValue>) -> (r: JsonValue)
    ensures
        r@ == Json::Array(items@.map_values(|x: JsonValue| x@)),
{
    let r = JsonValue::Array(items);
    assert(r@ == Json::Array(items@.map_values(|x: JsonValue| x@))) by {
        if let Json::Array(e) = r@ {
            assert(e =~= items@.map_values(|x: JsonValue| x@));
        }
    }
    r
}

/// A string value holding a copy of `s`.
pub fn string_of(s: &str) -> (r: JsonValue)
    ensures
        r@ == Json::Str(s@),
{
    JsonValue::String(String::from_str(s))
}

/// Whether two strings hold the same characters.
pub fn str_equal(a: &str, b: &str) -> (r: bool)
    ensures
        r == (a@ == b@),
{
    let n = a.unicode_len();
    if n != b.unicode_len() {
        return false;
    }
    let mut i: usize = 0;
    while i < n
        invariant
            n == a@.len() == b@.len(),
            i <= n,
            a@.subrange(0, i as int) == b@.subrange(0, i as int),
        decreases n - i,
    {
        if a.get_char(i) != b.get_char(i) {
            return false;
        }
        assert(a@.subrange(0, i + 1) == a@.subrange(0, i as int).push(a@[i as int]));
        assert(b@.subrange(0, i + 1) == b@.subrange(0, i as int).push(b@[i as int]));
        i = i + 1;
    }
    assert(a@ == a@.subrange(0, n as int));
    assert(b@ == b@.subrange(0, n as int));
    true
}

/// The value of `key` among the entries of an object, the last one winning.
pub fn get_field<'a>(entries: &'a Vec<(String, JsonValue)>, key: &str) -> (r: Option<
    &'a JsonValue,
>)
    ensures
        r is None <==> field(entries_view(entries@), key@) is None,
        r matches Some(v) ==> field(entries_view(entries@), key@) == Some(json_view(v)),
{
    let ghost all = entries_view(entries@);
    let mut i: usize = entries.len();
    assert(all.subrange(0, i as int) =~= all);
    while i > 0
        invariant
            i <= entries.len(),
            all == entries_view(entries@),
            field(all, key@) == field(all.subrange(0, i as int), key@),
        decreases i,
    {
        let ghost pre = all.subrange(0, i as int);
        assert(pre.drop_last() == all.subrange(0, i - 1));
        if str_equal(entries[i - 1].0.as_str(), key) {
            return Some(&entries[i - 1].1);
        }
        i = i - 1;
    }
    assert(all.subrange(0, 0).len() == 0);
    None
}

#[verifier::external_type_specification]
#[verifier::external_body]
pub struct ExValue(serde_json::Value);

#[verifier::external_type_specification]
#[verifier::external_body]
pub struct ExError(serde_json::Error);

/// Whether `s` is a non-empty run of decimal digits.
pub open spec fn all_digits(s: Seq<char>) -> bool {
    s.len() > 0 && forall|i: int| 0 <= i < s.len() ==> crate::version::is_digit(#[trigger] s[i])
}

/// Whether the text of an unsigned number is an integer part without a
/// leading zero, then, if any, a point and a fraction of at least one digit.
pub open spec fn plain_unsigned(u: Seq<char>) -> bool {
    let k = crate::version::dot_from(u, 0);
    let int_part = u.subrange(0, k);
    &&& all_digits(int_part)
    &&& (int_part.len() == 1 || int_part[0] != '0')
    &&& (k < u.len() ==> all_digits(u.subrange(k + 1, u.len() as int)))
}

/// Whether `t` is the text of a plain JSON number: an optional minus sign, a
/// decimal integer part and an optional fraction, no exponent, at most 300
/// characters (so that its value is finite).
pub open spec fn plain_number(t: Seq<char>) -> bool {
    &&& t.len() <= 300
    &&& if t.len() > 0 && t[0] == '-' {
        plain_unsigned(t.drop_first())
    } else {
        plain_unsigned(t)
    }
}

/// Whether every number in a JSON value is plain.
pub open spec fn numbers_plain(j: Json) -> bool
    decreases j,
{
    match j {
        Json::Number(t) => plain_number(t),
        Json::Array(a) => forall|i: int| 0 <= i < a.len() ==> numbers_plain(#[trigger] a[i]),
        Json::Object(e) => forall|i: int| 0 <= i < e.len() ==> numbers_plain(#[trigger] e[i].1),
        _ => true,
    }
}

/// The JSON value that a text holds, if it is well-formed JSON.
pub uninterp spec fn json_read(text: Seq<char>) -> Option<Json>;

/// The bytes of the JSON text of a value.
pub uninterp spec fn json_write(v: Json) -> Seq<u8>;

/// Turns serde_json's tree into a `JsonValue`, one node for one node; a
/// number becomes its text. Part of `read_json` below.
#[verifier::external_body]
fn from_serde(v: serde_json::Value) -> JsonValue {
    match v {
        serde_json::Value::Null => JsonValue::Null,
        serde_json::Value::Bool(b) => JsonValue::Bool(b),
        serde_json::Value::Number(n) => JsonValue::Number(n.to_string()),
        serde_json::Value::String(s) => JsonValue::String(s),
        serde_json::Value::Array(a) => JsonValue::Array(a.into_iter().map(from_serde).collect()),
        serde_json::Value::Object(m) => JsonValue::Object(
            m.into_iter().map(|(k, x)| (k, from_serde(x))).collect(),
        ),
    }
}

/// Turns a `JsonValue` into serde_json's tree, one node for one node; a
/// number is read back from its text. Part of `write_json` below.
#[verifier::external_body]
fn to_serde(v: &JsonValue) -> Result<serde_json::Value, serde_json::Error> {
    Ok(match v {
        JsonValue::Null => serde_json::Value::Null,
        JsonValue::Bool(b) => serde_json::Value::Bool(*b),
        JsonValue::Number(t) => serde_json::Value::Number(serde_json::from_str(t)?),
        JsonValue::String(s) => serde_json::Value::String(s.clone()),
        JsonValue::Array(a) => serde_json::Value::Array(a.iter().map(to_serde).collect::<Result<_, _>>()?),
        JsonValue::Object(o) => serde_json::Value::Object(
            o.iter().map(|(k, x)| Ok((k.clone(), to_serde(x)?))).collect::<Result<_, _>>()?,
        ),
    })
}

/// Relies on `serde_json::from_str` (into `serde_json::Value`): it either
/// fails or gives the value that the text holds, which depends on the text
/// alone.
#[verifier::external_body]
pub(crate) fn read_json(text: &str) -> (r: Result<JsonValue, serde_json::Error>)
    ensures
        r is Err <==> json_read(text@) is None,
        r matches Ok(v) ==> json_read(text@) == Some(v@),
{
    serde_json::from_str::<serde_json::Value>(text).map(from_serde)
}

/// Relies on `serde_json::to_vec` (of a `serde_json::Value`): on success its
/// bytes depend on the value alone. Writing a `Value` into a `Vec` raises no
/// error, so the call fails only where `serde_json::from_str` refuses the
/// text of a number, which it does not for a plain number (one that parses
/// to a finite value).
#[verifier::external_body]
pub(crate) fn write_json(v: &JsonValue) -> (r: Result<Vec<u8>, serde_json::Error>)
    ensures
        r matches Ok(b) ==> b@ == json_write(v@),
        numbers_plain(v@) ==> r is Ok,
{
    serde_json::to_vec(&to_serde(v)?)
}

/// The JSON encoding of definitions.
pub struct JsonRRDL {}

impl JsonRRDL {
    /// Decodes a definition from JSON text: malformed text is refused, and
    /// otherwise the value that the text holds is decoded.
    pub fn decode(&self, input: &str) -> (r: Result<RapidRecastDefinition, DecodeError>)
        ensures
            match json_read(input@) {
                None => r == Err::<RapidRecastDefinition, DecodeError>(DecodeError::MalformedText),
                Some(j) => definition_of(j) == match r {
                    Ok(d) => Ok(d@),
                    Err(x) => Err(x),
                },
            },
    {
        match read_json(input) {
            Ok(v) => definition_from_value(&v),
            Err(_) => Err(DecodeError::MalformedText),
        }
    }

    /// Encodes a definition as JSON text; this succeeds wherever every number
    /// literal in the definition is plain.
    pub fn encode(&self, definition: &RapidRecastDefinition) -> (r: Result<Vec<u8>, EncodeError>)
        ensures
            r matches Ok(b) ==> b@ == json_write(definition_json(definition@)),
            definition_plain(definition@) ==> r is Ok,
    {
        let v = definition_value(definition);
        proof {
            if definition_plain(definition@) {
                lemma_definition_plain(definition@);
            }
        }
        match write_json(&v) {
            Ok(b) => Ok(b),
            Err(_) => Err(EncodeError::WriterFailed),
        }
    }
}

impl ParseRRDL for JsonRRDL {
    fn parse_rrdl(&self, input: &str) -> (r: Result<RapidRecastDefinition, DecodeError>)
        ensures
            match json_read(input@) {
                None => r == Err::<RapidRecastDefinition, DecodeError>(DecodeError::MalformedText),
                Some(j) => definition_of(j) == match r {
                    Ok(d) => Ok(d@),
                    Err(x) => Err(x),
                },
            },
    {
        self.decode(input)
    }
}

impl SaveRRDL for JsonRRDL {
    fn save_rrdl(&self, definition: &RapidRecastDefinition) -> (r: Result<Vec<u8>, EncodeError>)
        ensures
            r matches Ok(b) ==> b@ == json_write(definition_json(definition@)),
            definition_plain(definition@) ==> r is Ok,
    {
        self.encode(definition)
    }
}

} // verus!
