//! The JSON reads and writes that the library takes from `serde_json`.
use vstd::prelude::*;

verus! {

/// What `serde_json::from_str::<String>` makes of a text: the string that the
/// JSON string literal spells, or `None` when the text is not one.
pub uninterp spec fn json_string_value(text: Seq<char>) -> Option<Seq<char>>;

/// A lowercase hexadecimal digit.
pub open spec fn hex_digit(n: u32) -> char {
    if n < 10 {
        (('0' as u32) + n) as char
    } else {
        (('a' as u32) + n - 10) as char
    }
}

/// How `serde_json` writes one character inside a string literal: quote and
/// backslash behind a backslash, backspace, tab, line feed, form feed and
/// carriage return as `\b \t \n \f \r`, the other characters below
/// `0x20` as `\u00` and two lowercase hexadecimal digits, everything else
/// as it is.
pub open spec fn json_escaped_char(c: char) -> Seq<char> {
    let n = c as u32;
    if c == '"' {
        seq!['\\', '"']
    } else if c == '\\' {
        seq!['\\', '\\']
    } else if n == 8 {
        seq!['\\', 'b']
    } else if n == 9 {
        seq!['\\', 't']
    } else if n == 10 {
        seq!['\\', 'n']
    } else if n == 12 {
        seq!['\\', 'f']
    } else if n == 13 {
        seq!['\\', 'r']
    } else if n < 32 {
        seq!['\\', 'u', '0', '0', hex_digit(n / 16), hex_digit(n % 16)]
    } else {
        seq![c]
    }
}

/// The characters of `s`, each written as `json_escaped_char` does.
pub open spec fn json_escaped(s: Seq<char>) -> Seq<char>
    decreases s.len(),
{
    if s.len() == 0 {
        seq![]
    } else {
        json_escaped_char(s[0]) + json_escaped(s.drop_first())
    }
}

/// The JSON string literal that `serde_json::to_string` writes for a string.
pub open spec fn json_quoted(s: Seq<char>) -> Seq<char> {
    seq!['"'] + json_escaped(s) + seq!['"']
}

/// What `serde_json::from_slice::<Vec<String>>` makes of bytes: the strings
/// of a JSON array of strings, or `None` when the bytes are not one.
pub uninterp spec fn json_string_list(bytes: Seq<u8>) -> Option<Seq<Seq<char>>>;

/// What `serde_json::to_vec_pretty` writes for a list of strings.
pub uninterp spec fn json_pretty_list(items: Seq<Seq<char>>) -> Option<Seq<u8>>;

/// What reading `bytes` as a JSON document and then the keys of the object at
/// `document[outer][inner]` gives: `None` when the bytes are not JSON,
/// `Some(None)` when no inner key is given or that member is missing or not
/// an object, and otherwise the keys as `serde_json`'s map yields them.
pub uninterp spec fn json_keys_at(
    bytes: Seq<u8>,
    outer: Seq<char>,
    inner: Option<Seq<char>>,
) -> Option<Option<Seq<Seq<char>>>>;

/// What reading `bytes` as a JSON document and then the string member
/// `document[key]` gives: `None` when the bytes are not JSON, `Some(None)`
/// when that member is missing or is not a string.
pub uninterp spec fn json_string_member(bytes: Seq<u8>, key: Seq<char>) -> Option<
    Option<Seq<char>>,
>;

/// Decodes a JSON string literal with `serde_json::from_str::<String>`.
/// Trusted: the result is exactly the named `json_string_value` of the text,
/// and a literal written as `serde_json::to_string` writes it (quote,
/// escapes of the ESCAPE table, quote) is read back as the string it was
/// written for.
#[verifier::external_body]
pub(crate) fn decode_json_string(text: &str) -> (r: Option<String>)
    ensures
        match r {
            Some(v) => json_string_value(text@) == Some(v@) && forall|s: Seq<char>|
                #[trigger] json_quoted(s) == text@ ==> v@ == s,
            None => json_string_value(text@) is None && forall|s: Seq<char>|
                #[trigger] json_quoted(s) != text@,
        },
{
    serde_json::from_str::<String>(text).ok()
}

/// Encodes a string as a JSON string literal with `serde_json::to_string`.
/// Trusted: serialising a `str` into the in-memory buffer of `to_string`
/// does not fail, and writes the quoted, escaped text of `json_quoted`
/// (`format_escaped_str` with the `ESCAPE` table of `serde_json::ser`).
#[verifier::external_body]
pub(crate) fn encode_json_string(text: &str) -> (r: String)
    ensures
        r@ == json_quoted(text@),
{
    serde_json::to_string(text).unwrap_or_default()
}

/// Reads a JSON array of strings with `serde_json::from_slice::<Vec<String>>`.
/// Trusted: the result is exactly the named `json_string_list` of the bytes,
/// and bytes that `serde_json::to_vec_pretty` wrote for a list of strings
/// are read back as that list.
#[verifier::external_body]
pub(crate) fn decode_string_list(bytes: &[u8]) -> (r: Option<Vec<String>>)
    ensures
        match r {
            Some(v) => json_string_list(bytes@) == Some(v@.map_values(|s: String| s@)) && forall|
                items: Seq<Seq<char>>,
            | #[trigger] json_pretty_list(items) == Some(bytes@) ==> v@.map_values(
                |s: String| s@,
            ) == items,
            None => json_string_list(bytes@) is None && forall|items: Seq<Seq<char>>|
                #[trigger] json_pretty_list(items) != Some(bytes@),
        },
{
    serde_json::from_slice::<Vec<String>>(bytes).ok()
}

/// Writes a list of strings as pretty-printed JSON with
/// `serde_json::to_vec_pretty`. Trusted: the result is exactly the named
/// `json_pretty_list` of the strings.
#[verifier::external_body]
pub(crate) fn encode_string_list(items: &Vec<String>) -> (r: Option<Vec<u8>>)
    ensures
        r.deep_view() == json_pretty_list(items@.map_values(|s: String| s@)),
{
    serde_json::to_vec_pretty(items).ok()
}

/// Parses `bytes` with `serde_json::from_slice::<Value>` and lists the keys
/// of the object found under `outer` and then `inner`. Trusted: the result
/// is exactly the named `json_keys_at` of the arguments.
#[verifier::external_body]
pub(crate) fn object_keys_at(bytes: &[u8], outer: &str, inner: Option<&str>) -> (r: Option<
    Option<Vec<String>>,
>)
    ensures
        match r {
            None => json_keys_at(bytes@, outer@, inner.deep_view()) is None,
            Some(None) => json_keys_at(bytes@, outer@, inner.deep_view()) == Some(
                None::<Seq<Seq<char>>>,
            ),
            Some(Some(keys)) => json_keys_at(bytes@, outer@, inner.deep_view()) == Some(
                Some(keys@.map_values(|k: String| k@)),
            ),
        },
{
    let root: serde_json::Value = match serde_json::from_slice(bytes) {
        Ok(value) => value,
        Err(_) => return None,
    };
    let member = inner.and_then(|key| root.get(outer).and_then(|v| v.get(key)));
    match member.and_then(serde_json::Value::as_object) {
        Some(map) => Some(Some(map.keys().cloned().collect())),
        None => Some(None),
    }
}

/// Parses `bytes` with `serde_json::from_slice::<Value>` and reads the string
/// member `key`. Trusted: the result is exactly the named
/// `json_string_member` of the arguments.
#[verifier::external_body]
pub(crate) fn string_member(bytes: &[u8], key: &str) -> (r: Option<Option<String>>)
    ensures
        match r {
            None => json_string_member(bytes@, key@) is None,
            Some(None) => json_string_member(bytes@, key@) == Some(None::<Seq<char>>),
            Some(Some(v)) => json_string_member(bytes@, key@) == Some(Some(v@)),
        },
{
    let root: serde_json::Value = match serde_json::from_slice(bytes) {
        Ok(value) => value,
        Err(_) => return None,
    };
    Some(root.get(key).and_then(serde_json::Value::as_str).map(str::to_string))
}

} // verus!
