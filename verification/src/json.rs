//! JSON text, read and written by `serde_json`.
use crate::text::opt_text;
use vstd::prelude::*;

verus! {

/// `serde_json::Value`, opaque here.
#[verifier::external_type_specification]
#[verifier::external_body]
pub struct ExJsonValue(serde_json::Value);

/// `serde_json::Map`, opaque here; what one holds is `fields`.
#[verifier::external_type_specification]
#[verifier::external_body]
#[verifier::reject_recursive_types(K)]
#[verifier::reject_recursive_types(V)]
pub struct ExJsonMap<K, V>(serde_json::Map<K, V>);

/// What a field of a JSON object is, as far as it is ever looked at.
pub enum Field {
    /// A string.
    Text(Seq<char>),
    /// An integer that fits a `u64`.
    Natural(u64),
    /// Anything else.
    Other,
}

/// The fields of an object, by name.
pub uninterp spec fn fields(
    object: serde_json::Map<String, serde_json::Value>,
) -> Map<Seq<char>, Field>;

/// The fields of the object that a JSON text spells; nothing when the text is no
/// JSON, or is JSON but no object.
pub uninterp spec fn object_in(text: Seq<char>) -> Option<Map<Seq<char>, Field>>;

/// The JSON text of an object whose fields are all strings.
pub uninterp spec fn object_text(fields: Map<Seq<char>, Field>) -> Seq<char>;

/// Whether every field is a string.
pub open spec fn all_text(fields: Map<Seq<char>, Field>) -> bool {
    forall|key: Seq<char>| #[trigger] fields.contains_key(key) ==> fields[key] is Text
}

/// The string under `key`, if there is one.
pub open spec fn text_field(fields: Map<Seq<char>, Field>, key: Seq<char>) -> Option<Seq<char>> {
    if fields.contains_key(key) {
        match fields[key] {
            Field::Text(text) => Some(text),
            _ => None,
        }
    } else {
        None
    }
}

/// The unsigned integer under `key`, if there is one.
pub open spec fn natural_field(fields: Map<Seq<char>, Field>, key: Seq<char>) -> Option<u64> {
    if fields.contains_key(key) {
        match fields[key] {
            Field::Natural(n) => Some(n),
            _ => None,
        }
    } else {
        None
    }
}

/// The fields of an object without any.
pub open spec fn no_fields() -> Map<Seq<char>, Field> {
    Map::empty()
}

/// What an optional object holds.
pub open spec fn opt_fields(
    object: Option<serde_json::Map<String, serde_json::Value>>,
) -> Option<Map<Seq<char>, Field>> {
    match object {
        Some(object) => Some(fields(object)),
        None => None,
    }
}

/// `serde_json::from_str` into a `Value`, of which an object is kept and anything
/// else dropped: the result is the text's own object, if it spells one.
#[verifier::external_body]
pub(crate) fn parse_object(text: &str) -> (object: Option<
    serde_json::Map<String, serde_json::Value>,
>)
    ensures
        opt_fields(object) == object_in(text@),
{
    match serde_json::from_str::<serde_json::Value>(text) {
        Ok(serde_json::Value::Object(object)) => Some(object),
        _ => None,
    }
}

/// `serde_json::Map::contains_key`: whether there is a field under `key`, of whatever
/// kind.
#[verifier::external_body]
pub(crate) fn has_field(
    object: &serde_json::Map<String, serde_json::Value>,
    key: &str,
) -> (yes: bool)
    ensures
        yes == fields(*object).contains_key(key@),
{
    object.contains_key(key)
}

/// `serde_json::Map::get` followed by `serde_json::Value::as_str`: the field under
/// `key`, when it is there and is a string.
#[verifier::external_body]
pub(crate) fn get_text(
    object: &serde_json::Map<String, serde_json::Value>,
    key: &str,
) -> (found: Option<String>)
    ensures
        opt_text(found) == text_field(fields(*object), key@),
{
    object.get(key).and_then(|value| value.as_str()).map(|text| text.to_string())
}

/// `serde_json::Map::get` followed by `serde_json::Value::as_u64`: the field under
/// `key`, when it is there and is an integer that fits.
#[verifier::external_body]
pub(crate) fn get_natural(
    object: &serde_json::Map<String, serde_json::Value>,
    key: &str,
) -> (found: Option<u64>)
    ensures
        found == natural_field(fields(*object), key@),
{
    object.get(key).and_then(|value| value.as_u64())
}

/// `serde_json::Map::new`: an object without fields.
#[verifier::external_body]
pub(crate) fn empty_object() -> (object: serde_json::Map<String, serde_json::Value>)
    ensures
        fields(object) == no_fields(),
{
    serde_json::Map::new()
}

/// `serde_json::Map::insert` of a string: the field under `key` becomes that string,
/// and the other fields stay.
#[verifier::external_body]
pub(crate) fn put_text(
    object: &mut serde_json::Map<String, serde_json::Value>,
    key: &str,
    text: &str,
)
    ensures
        fields(*final(object)) == fields(*old(object)).insert(key@, Field::Text(text@)),
{
    object.insert(key.to_string(), serde_json::Value::String(text.to_string()));
}

/// `serde_json::Value::to_string` of an object: compact JSON text, the fields in the
/// order of their names, because the map is a sorted one unless the crate's
/// `preserve_order` feature is on. For an object whose fields are all strings the text
/// depends on the fields alone, and reading it gives the same fields back.
#[verifier::external_body]
pub(crate) fn write_object(object: serde_json::Map<String, serde_json::Value>) -> (text: String)
    ensures
        all_text(fields(object)) ==> text@ == object_text(fields(object)) && object_in(text@)
            == Some(fields(object)),
{
    serde_json::Value::Object(object).to_string()
}

/// The lower-case hexadecimal digit for a number below sixteen.
pub open spec fn hex_digit(d: nat) -> char {
    if d < 10 {
        (d + '0' as nat) as char
    } else {
        (d - 10 + 'a' as nat) as char
    }
}

/// One character as it stands inside a JSON string.
pub open spec fn escaped(c: char) -> Seq<char> {
    if c == '"' || c == '\\' {
        seq!['\\', c]
    } else if c == '\u{8}' {
        seq!['\\', 'b']
    } else if c == '\u{9}' {
        seq!['\\', 't']
    } else if c == '\u{a}' {
        seq!['\\', 'n']
    } else if c == '\u{c}' {
        seq!['\\', 'f']
    } else if c == '\u{d}' {
        seq!['\\', 'r']
    } else if c <= '\u{1f}' {
        seq!['\\', 'u', '0', '0', hex_digit((c as nat) / 16), hex_digit((c as nat) % 16)]
    } else {
        seq![c]
    }
}

/// A text as it stands inside a JSON string.
pub open spec fn escaped_text(s: Seq<char>) -> Seq<char>
    decreases s.len(),
{
    if s.len() == 0 {
        s
    } else {
        escaped_text(s.drop_last()) + escaped(s.last())
    }
}

/// The JSON string that spells `s`, quotes included. It is a script literal too.
pub open spec fn quoted(s: Seq<char>) -> Seq<char> {
    seq!['"'] + escaped_text(s) + seq!['"']
}

/// `serde_json::to_string` of a string: never fails, and gives the JSON string that
/// spells `s`, with quotes, backslashes and the characters below U+0020 escaped.
#[verifier::external_body]
pub(crate) fn quote(s: &str) -> (literal: Option<String>)
    ensures
        opt_text(literal) == Some(quoted(s@)),
{
    serde_json::to_string(s).ok()
}

} // verus!
