//! Read access to JSON documents held as text. Parsing and pointer lookup are
//! done by `serde_json`; the library reads documents only through these
//! lookups, each named by what `serde_json` returns for the same text.
use vstd::prelude::*;

verus! {

/// A JSON value held as plain data: numbers keep their text, objects their
/// keys and values in order, the value under each key at the key's index.
#[derive(Debug)]
pub enum JsonValue {
    Null,
    Bool(bool),
    Number(String),
    String(String),
    Array(Vec<JsonValue>),
    Object { keys: Vec<String>, values: Vec<JsonValue> },
}

/// Whether `serde_json::from_str::<Value>` accepts the text.
pub uninterp spec fn json_is_valid(text: Seq<char>) -> bool;

/// What `serde_json` reports when it rejects the text (its `Display`).
pub uninterp spec fn json_error_message(text: Seq<char>) -> Seq<char>;

/// Whether `Value::pointer` finds a value at the pointer.
pub uninterp spec fn json_has(text: Seq<char>, pointer: Seq<char>) -> bool;

/// `Value::pointer` followed by `Value::as_str`.
pub uninterp spec fn json_str_at(text: Seq<char>, pointer: Seq<char>) -> Option<Seq<char>>;

/// `Value::pointer` followed by `Value::as_u64`.
pub uninterp spec fn json_u64_at(text: Seq<char>, pointer: Seq<char>) -> Option<u64>;

/// `Value::pointer` followed by `Value::as_array`, giving the array length.
pub uninterp spec fn json_array_len_at(text: Seq<char>, pointer: Seq<char>) -> Option<usize>;

/// `Value::pointer` followed by the compact rendering of the value found.
pub uninterp spec fn json_render_at(text: Seq<char>, pointer: Seq<char>) -> Option<Seq<char>>;

/// `Value::pointer` followed by `Value::is_object`.
pub uninterp spec fn json_is_object_at(text: Seq<char>, pointer: Seq<char>) -> bool;

/// `Value::pointer` followed by `Value::as_object`: each member's key with
/// the member's `Value::as_str`, in the order the map holds them.
pub uninterp spec fn json_members_at(text: Seq<char>, pointer: Seq<char>) -> Option<Seq<(Seq<char>, Option<Seq<char>>)>>;

/// The lowercase hexadecimal digit of a value below 16.
pub open spec fn hex_digit(d: int) -> char {
    seq!['0', '1', '2', '3', '4', '5', '6', '7', '8', '9', 'a', 'b', 'c', 'd', 'e', 'f'][d]
}

/// How `serde_json` writes one character inside a string literal: `"` and
/// `\` behind a backslash, the control characters with a short escape as
/// `\b`, `\t`, `\n`, `\f` and `\r`, the other control characters below
/// U+0020 as `\u00` and two lowercase hex digits, everything else as is.
pub open spec fn json_escape_char(c: char) -> Seq<char> {
    if c == '"' {
        seq!['\\', '"']
    } else if c == '\\' {
        seq!['\\', '\\']
    } else if c == '\u{8}' {
        seq!['\\', 'b']
    } else if c == '\t' {
        seq!['\\', 't']
    } else if c == '\n' {
        seq!['\\', 'n']
    } else if c == '\u{c}' {
        seq!['\\', 'f']
    } else if c == '\r' {
        seq!['\\', 'r']
    } else if (c as u32) < 0x20 {
        seq!['\\', 'u', '0', '0', hex_digit((c as u32) as int / 16), hex_digit((c as u32) as int % 16)]
    } else {
        seq![c]
    }
}

/// Each character of the text written as `json_escape_char` writes it.
pub open spec fn json_escaped(s: Seq<char>) -> Seq<char>
    decreases s.len(),
{
    if s.len() == 0 {
        seq![]
    } else {
        json_escaped(s.drop_last()) + json_escape_char(s.last())
    }
}

/// `serde_json::to_string` of a string: the escaped text between double
/// quotes.
#[verifier::opaque]
pub open spec fn json_string_literal(s: Seq<char>) -> Seq<char> {
    seq!['"'] + json_escaped(s) + seq!['"']
}

/// The text parsed as a `Value` and written back by `serde_json::to_string`,
/// or the message of the error met on the way.
pub uninterp spec fn json_compact_of(text: Seq<char>) -> Result<Seq<char>, Seq<char>>;

/// The text parsed as a `Value` and written back by
/// `serde_json::to_string_pretty`, or the message of the error met on the way.
pub uninterp spec fn json_pretty_of(text: Seq<char>) -> Result<Seq<char>, Seq<char>>;

/// The plain form of the `Value` that `serde_json::from_str` reads from the
/// text: object members in the order `serde_json`'s map keeps them, numbers
/// as `serde_json` writes them.
pub uninterp spec fn json_value_of(text: Seq<char>) -> JsonValue;

/// `serde_json::Value`, carried through opaque.
#[verifier::external_type_specification]
#[verifier::external_body]
pub struct ExJsonDocument(serde_json::Value);

/// `serde_json::from_str::<serde_json::Value>`, the value it reads turned
/// into its plain form one variant for one, or the parser's message.
#[verifier::external_body]
pub fn json_parse(text: &str) -> (r: Result<JsonValue, String>)
    ensures
        r is Ok <==> json_is_valid(text@),
        r matches Ok(v) ==> v == json_value_of(text@),
        r matches Err(m) ==> m@ == json_error_message(text@),
{
    match serde_json::from_str::<serde_json::Value>(text) {
        Ok(value) => Ok(plain_value(&value)),
        Err(error) => Err(error.to_string()),
    }
}

/// Turns a `serde_json::Value` into its plain form, variant for variant:
/// a number becomes its `Display` text, an object its keys and values in
/// map order.
#[verifier::external_body]
fn plain_value(v: &serde_json::Value) -> (r: JsonValue) {
    match v {
        serde_json::Value::Null => JsonValue::Null,
        serde_json::Value::Bool(b) => JsonValue::Bool(*b),
        serde_json::Value::Number(n) => JsonValue::Number(n.to_string()),
        serde_json::Value::String(s) => JsonValue::String(s.clone()),
        serde_json::Value::Array(items) => JsonValue::Array(items.iter().map(plain_value).collect()),
        serde_json::Value::Object(map) => JsonValue::Object {
            keys: map.keys().cloned().collect(),
            values: map.values().map(plain_value).collect(),
        },
    }
}

/// `serde_json::from_str::<serde_json::Value>`: whether the text is JSON,
/// and if not, the parser's message.
#[verifier::external_body]
pub fn json_check(text: &str) -> (r: Result<(), String>)
    ensures
        r is Ok <==> json_is_valid(text@),
        r matches Err(m) ==> m@ == json_error_message(text@),
{
    match serde_json::from_str::<serde_json::Value>(text) {
        Ok(_) => Ok(()),
        Err(error) => Err(error.to_string()),
    }
}

/// `Value::pointer` on the parsed text: whether a value is there.
#[verifier::external_body]
pub fn json_has_at(text: &str, pointer: &str) -> (r: bool)
    ensures
        r == json_has(text@, pointer@),
{
    match serde_json::from_str::<serde_json::Value>(text) {
        Ok(value) => value.pointer(pointer).is_some(),
        Err(_) => false,
    }
}

/// `Value::pointer` then `Value::as_str` on the parsed text.
#[verifier::external_body]
pub fn json_str(text: &str, pointer: &str) -> (r: Option<String>)
    ensures
        match r {
            Some(s) => json_str_at(text@, pointer@) == Some(s@),
            None => json_str_at(text@, pointer@) is None,
        },
{
    match serde_json::from_str::<serde_json::Value>(text) {
        Ok(value) => match value.pointer(pointer) {
            Some(found) => found.as_str().map(str::to_owned),
            None => None,
        },
        Err(_) => None,
    }
}

/// `Value::pointer` then `Value::as_u64` on the parsed text.
#[verifier::external_body]
pub fn json_u64(text: &str, pointer: &str) -> (r: Option<u64>)
    ensures
        r == json_u64_at(text@, pointer@),
{
    match serde_json::from_str::<serde_json::Value>(text) {
        Ok(value) => match value.pointer(pointer) {
            Some(found) => found.as_u64(),
            None => None,
        },
        Err(_) => None,
    }
}

/// `Value::pointer` then `Value::as_array` on the parsed text, giving its length.
#[verifier::external_body]
pub fn json_array_len(text: &str, pointer: &str) -> (r: Option<usize>)
    ensures
        r == json_array_len_at(text@, pointer@),
{
    match serde_json::from_str::<serde_json::Value>(text) {
        Ok(value) => match value.pointer(pointer) {
            Some(found) => found.as_array().map(Vec::len),
            None => None,
        },
        Err(_) => None,
    }
}

/// `Value::pointer` then `Value::to_string` (compact JSON) on the parsed text.
#[verifier::external_body]
pub fn json_render(text: &str, pointer: &str) -> (r: Option<String>)
    ensures
        match r {
            Some(s) => json_render_at(text@, pointer@) == Some(s@),
            None => json_render_at(text@, pointer@) is None,
        },
{
    match serde_json::from_str::<serde_json::Value>(text) {
        Ok(value) => match value.pointer(pointer) {
            Some(found) => Some(found.to_string()),
            None => None,
        },
        Err(_) => None,
    }
}

/// `Value::pointer` then `Value::is_object` on the parsed text.
#[verifier::external_body]
pub fn json_is_object(text: &str, pointer: &str) -> (r: bool)
    ensures
        r == json_is_object_at(text@, pointer@),
{
    match serde_json::from_str::<serde_json::Value>(text) {
        Ok(value) => match value.pointer(pointer) {
            Some(found) => found.is_object(),
            None => false,
        },
        Err(_) => false,
    }
}

/// `serde_json::to_string(&str)`: the string between double quotes, each
/// character escaped by `serde_json`'s table (`format_escaped_str`). It
/// cannot fail for a string.
#[verifier::external_body]
pub fn json_quote(s: &str) -> (r: String)
    ensures
        r@ == json_string_literal(s@),
{
    match serde_json::to_string(s) {
        Ok(text) => text,
        Err(_) => String::new(),
    }
}

/// `serde_json::from_str::<Value>` then `serde_json::to_string`: the
/// compact rendering of a JSON document, with object members in the order
/// `serde_json`'s map keeps them.
#[verifier::external_body]
pub fn json_compact(text: &str) -> (r: Result<String, String>)
    ensures
        match r {
            Ok(s) => json_compact_of(text@) == Ok::<Seq<char>, Seq<char>>(s@),
            Err(m) => json_compact_of(text@) == Err::<Seq<char>, Seq<char>>(m@),
        },
{
    match serde_json::from_str::<serde_json::Value>(text) {
        Ok(value) => match serde_json::to_string(&value) {
            Ok(rendered) => Ok(rendered),
            Err(error) => Err(error.to_string()),
        },
        Err(error) => Err(error.to_string()),
    }
}

/// `serde_json::from_str::<Value>` then `serde_json::to_string_pretty`: the
/// indented rendering of a JSON document.
#[verifier::external_body]
pub fn json_pretty(text: &str) -> (r: Result<String, String>)
    ensures
        match r {
            Ok(s) => json_pretty_of(text@) == Ok::<Seq<char>, Seq<char>>(s@),
            Err(m) => json_pretty_of(text@) == Err::<Seq<char>, Seq<char>>(m@),
        },
{
    match serde_json::from_str::<serde_json::Value>(text) {
        Ok(value) => match serde_json::to_string_pretty(&value) {
            Ok(rendered) => Ok(rendered),
            Err(error) => Err(error.to_string()),
        },
        Err(error) => Err(error.to_string()),
    }
}

pub open spec fn member_views(v: Seq<(String, Option<String>)>) -> Seq<(Seq<char>, Option<Seq<char>>)> {
    v.map_values(
        |m: (String, Option<String>)|
            (
                m.0@,
                match m.1 {
                    Some(s) => Some(s@),
                    None => None,
                },
            ),
    )
}

/// `Value::pointer` then `Value::as_object` on the parsed text: each member's
/// key, with the member's text when it is a string.
#[verifier::external_body]
pub fn json_string_members(text: &str, pointer: &str) -> (r: Option<Vec<(String, Option<String>)>>)
    ensures
        match r {
            Some(v) => json_members_at(text@, pointer@) == Some(member_views(v@)),
            None => json_members_at(text@, pointer@) is None,
        },
{
    let value: serde_json::Value = match serde_json::from_str(text) {
        Ok(value) => value,
        Err(_) => return None,
    };
    let object = value.pointer(pointer)?.as_object()?;
    let mut members = Vec::new();
    for (key, member) in object {
        members.push((key.clone(), member.as_str().map(str::to_owned)));
    }
    Some(members)
}

} // verus!
