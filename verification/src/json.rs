//! The JSON facts the chat renderer needs from `serde_json`: string quoting,
//! the members of a tool-call object, and the shape of a tool-call argument
//! object.

use vstd::prelude::*;

verus! {

/// A hexadecimal digit as `serde_json` writes it (lower case).
pub open spec fn hex_digit(n: int) -> char {
    if n < 10 {
        ((48 + n) as u32) as char
    } else {
        ((97 + n - 10) as u32) as char
    }
}

/// The JSON escape of one character: quote, backslash and the control
/// characters are escaped, everything else is kept.
pub open spec fn json_escape_char(c: char) -> Seq<char> {
    if c == '"' {
        seq!['\\', '"']
    } else if c == '\\' {
        seq!['\\', '\\']
    } else if c == '\u{08}' {
        seq!['\\', 'b']
    } else if c == '\t' {
        seq!['\\', 't']
    } else if c == '\n' {
        seq!['\\', 'n']
    } else if c == '\u{0C}' {
        seq!['\\', 'f']
    } else if c == '\r' {
        seq!['\\', 'r']
    } else if (c as u32) < 32 {
        seq!['\\', 'u', '0', '0', hex_digit((c as int) / 16), hex_digit((c as int) % 16)]
    } else {
        seq![c]
    }
}

/// The JSON escape of a string's characters.
pub open spec fn json_escape(s: Seq<char>) -> Seq<char>
    decreases s.len(),
{
    if s.len() == 0 {
        Seq::empty()
    } else {
        json_escape(s.drop_last()) + json_escape_char(s.last())
    }
}

/// `serde_json::to_string` of a `str`: the string in double quotes with
/// `"`, `\` and the control characters below U+0020 escaped (`\b`, `\t`,
/// `\n`, `\f`, `\r`, else `\u00xx`).
#[verifier::external_body]
pub(crate) fn json_quote(s: &str) -> (r: String)
    ensures
        r@ == seq!['"'] + json_escape(s@) + seq!['"'],
{
    serde_json::to_string(s).unwrap_or_default()
}

/// The string member `key` of the JSON object `text`, when `text` parses as
/// an object whose member `key` is a string.
pub uninterp spec fn json_str_member_of(text: Seq<char>, key: Seq<char>) -> Option<Seq<char>>;

/// `serde_json::from_str::<Value>(text)` followed by `get(key)` and
/// `as_str`: the string member `key` of the object `text`, if any.
#[verifier::external_body]
pub(crate) fn json_str_member(text: &str, key: &str) -> (r: Option<String>)
    ensures
        match r {
            Some(v) => json_str_member_of(text@, key@) == Some(v@),
            None => json_str_member_of(text@, key@) is None,
        },
{
    serde_json::from_str::<serde_json::Value>(text).ok().and_then(
        |v| v.get(key).and_then(|m| m.as_str()).map(|m| m.to_owned()),
    )
}

/// The compact JSON text of the member `key` of the JSON object `text`,
/// when `text` parses as an object that has that member.
pub uninterp spec fn json_member_text_of(text: Seq<char>, key: Seq<char>) -> Option<Seq<char>>;

/// `serde_json::from_str::<Value>(text)` followed by `get(key)` and
/// `Value::to_string`: the member `key` of the object `text` as compact JSON
/// text, if there is one.
#[verifier::external_body]
pub(crate) fn json_member_text(text: &str, key: &str) -> (r: Option<String>)
    ensures
        match r {
            Some(v) => json_member_text_of(text@, key@) == Some(v@),
            None => json_member_text_of(text@, key@) is None,
        },
{
    serde_json::from_str::<serde_json::Value>(text).ok().and_then(|v| v.get(key).map(|m| m.to_string()))
}

/// One member of a tool-call argument object: its key, whether the value is
/// a JSON string, and the value as rendered (the string itself, or compact
/// JSON for any other value).
#[derive(Clone, Debug, PartialEq, Eq)]
pub struct JsonArgument {
    pub key: String,
    pub is_string: bool,
    pub rendered: String,
}

/// The shape of a tool-call argument text.
#[derive(Clone, Debug, PartialEq, Eq)]
pub enum JsonArguments {
    /// Not JSON.
    Invalid,
    /// JSON, but not an object: its compact JSON text.
    Scalar(String),
    /// A JSON object: its members in key order.
    Object(Vec<JsonArgument>),
}

/// A plain-value model of `JsonArguments`: a tag (0 invalid, 1 scalar,
/// 2 object), the scalar text, and the members.
pub open spec fn json_arguments_view(a: JsonArguments) -> (int, Seq<char>, Seq<
    (Seq<char>, bool, Seq<char>),
>) {
    match a {
        JsonArguments::Invalid => (0, Seq::empty(), Seq::empty()),
        JsonArguments::Scalar(s) => (1, s@, Seq::empty()),
        JsonArguments::Object(v) => (
            2,
            Seq::empty(),
            v@.map_values(|m: JsonArgument| (m.key@, m.is_string, m.rendered@)),
        ),
    }
}

/// The shape `serde_json` gives an argument text.
pub uninterp spec fn json_arguments_of(text: Seq<char>) -> (int, Seq<char>, Seq<
    (Seq<char>, bool, Seq<char>),
>);

/// `serde_json::from_str::<Value>(text)` seen through its variants: not
/// JSON, a non-object value as compact JSON (`Value::to_string`), or an
/// object's members in the map's key order, string values unquoted and any
/// other value as compact JSON.
#[verifier::external_body]
pub(crate) fn json_arguments(text: &str) -> (r: JsonArguments)
    ensures
        json_arguments_view(r) == json_arguments_of(text@),
{
    match serde_json::from_str::<serde_json::Value>(text) {
        Err(_) => JsonArguments::Invalid,
        Ok(serde_json::Value::Object(map)) => JsonArguments::Object(
            map.into_iter().map(|(key, value)| match value {
                serde_json::Value::String(s) => JsonArgument { key, is_string: true, rendered: s },
                other => JsonArgument { key, is_string: false, rendered: other.to_string() },
            }).collect(),
        ),
        Ok(other) => JsonArguments::Scalar(other.to_string()),
    }
}

} // verus!
