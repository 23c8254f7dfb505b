//! JSON texts, from the `serde_json` crate.

use vstd::prelude::*;

use crate::ids;

verus! {

/// A JSON text as `serde_json::to_string_pretty` lays it out, once `serde_json::from_str` has
/// read it; `None` where it is not JSON.
pub uninterp spec fn pretty_json(text: Seq<char>) -> Option<Seq<char>>;

/// A character as it stands in a JSON string: quotes, backslashes and control characters are
/// escaped.
pub open spec fn escaped(c: char) -> Seq<char> {
    let n = c as u32 as int;
    if c == '"' {
        seq!['\\', '"']
    } else if c == '\\' {
        seq!['\\', '\\']
    } else if n == 8 {
        seq!['\\', 'b']
    } else if n == 9 {
        seq!['\\', 't']
    } else if n == 10 {
        seq!['\\', 'n']
    } else if n == 12 {
        seq!['\\', 'f']
    } else if n == 13 {
        seq!['\\', 'r']
    } else if n < 32 {
        seq!['\\', 'u', '0', '0', ids::hex_digit(n / 16), ids::hex_digit(n % 16)]
    } else {
        seq![c]
    }
}

/// A text between the quotes of a JSON string.
pub open spec fn escaped_text(text: Seq<char>) -> Seq<char>
    decreases text.len(),
{
    if text.len() == 0 {
        seq![]
    } else {
        escaped_text(text.drop_last()) + escaped(text.last())
    }
}

/// A text as a JSON string.
pub open spec fn json_quoted(text: Seq<char>) -> Seq<char> {
    seq!['"'] + escaped_text(text) + seq!['"']
}

/// The text that a JSON object holds under a key, as `serde_json::Value` reads it from bytes;
/// `None` where the bytes are not JSON, or hold no text there.
pub uninterp spec fn text_field(bytes: Seq<u8>, key: Seq<char>) -> Option<Seq<char>>;

/// What a JSON object holds under a key, as `serde_json::to_string_pretty` lays it out; `None`
/// where the bytes are not JSON, or hold nothing there.
pub uninterp spec fn pretty_field(bytes: Seq<u8>, key: Seq<char>) -> Option<Seq<char>>;

/// Bytes as `serde_json::from_slice` reads them, written without blanks as `serde_json::Value`
/// displays what it read; where they are not JSON, the error as `serde_json::Error` displays
/// it.
pub uninterp spec fn json_text(bytes: Seq<u8>) -> Result<Seq<char>, Seq<char>>;

/// What a JSON object holds under a key, written without blanks as `serde_json::Value` displays
/// it; `None` where the bytes are not JSON, or hold nothing there.
pub uninterp spec fn field_text(bytes: Seq<u8>, key: Seq<char>) -> Option<Seq<char>>;

/// Reads bytes with `serde_json::from_slice`, and displays the value, or the error. The result
/// depends on the bytes alone.
#[verifier::external_body]
pub(crate) fn read_json(bytes: &[u8]) -> (r: Result<String, String>)
    ensures
        match r {
            Ok(s) => json_text(bytes@) == Ok::<Seq<char>, Seq<char>>(s@),
            Err(e) => json_text(bytes@) == Err::<Seq<char>, Seq<char>>(e@),
        },
{
    match serde_json::from_slice::<serde_json::Value>(bytes) {
        Ok(value) => Ok(value.to_string()),
        Err(e) => Err(e.to_string()),
    }
}

/// Reads bytes with `serde_json::from_slice`, looks a value up with `serde_json::Value::get`,
/// and displays it. The result depends on the bytes and the key alone.
#[verifier::external_body]
pub(crate) fn get_field(bytes: &[u8], key: &str) -> (r: Option<String>)
    ensures
        (r is Some) == (field_text(bytes@, key@) is Some),
        r matches Some(s) ==> Some(s@) == field_text(bytes@, key@),
{
    let value = serde_json::from_slice::<serde_json::Value>(bytes).ok()?;
    value.get(key).map(|v| v.to_string())
}

/// The list that a JSON object holds under a key, as it is written; an empty one where it holds
/// nothing there.
pub open spec fn list_text(bytes: Seq<u8>, key: Seq<char>) -> Seq<char> {
    match field_text(bytes, key) {
        Some(s) => s,
        None => "[]"@,
    }
}

/// Looks a list up.
pub fn get_list(bytes: &[u8], key: &str) -> (r: String)
    ensures
        r@ == list_text(bytes@, key@),
{
    match get_field(bytes, key) {
        Some(s) => s,
        None => "[]".to_owned(),
    }
}

/// Reads a text with `serde_json::from_str` and lays it out with
/// `serde_json::to_string_pretty`. The result depends on the text alone.
#[verifier::external_body]
pub(crate) fn pretty(text: &str) -> (r: Option<String>)
    ensures
        (r is Some) == (pretty_json(text@) is Some),
        r matches Some(s) ==> Some(s@) == pretty_json(text@),
{
    let value = serde_json::from_str::<serde_json::Value>(text).ok()?;
    serde_json::to_string_pretty(&value).ok()
}

/// Writes a text with `serde_json::to_string`: in quotes, with quotes, backslashes and control
/// characters escaped. It does not fail on a text.
#[verifier::external_body]
pub(crate) fn quote(text: &str) -> (r: String)
    ensures
        r@ == json_quoted(text@),
{
    serde_json::to_string(text).unwrap_or_default()
}

/// Reads bytes with `serde_json::from_slice`, and looks a text up with
/// `serde_json::Value::get` and `as_str`. The result depends on the bytes and the key alone.
#[verifier::external_body]
pub(crate) fn get_text(bytes: &[u8], key: &str) -> (r: Option<String>)
    ensures
        (r is Some) == (text_field(bytes@, key@) is Some),
        r matches Some(s) ==> Some(s@) == text_field(bytes@, key@),
{
    let value = serde_json::from_slice::<serde_json::Value>(bytes).ok()?;
    value.get(key)?.as_str().map(|s| s.to_owned())
}

/// Reads bytes with `serde_json::from_slice`, looks a value up with `serde_json::Value::get`,
/// and lays it out with `serde_json::to_string_pretty`. The result depends on the bytes and
/// the key alone.
#[verifier::external_body]
pub(crate) fn get_pretty(bytes: &[u8], key: &str) -> (r: Option<String>)
    ensures
        (r is Some) == (pretty_field(bytes@, key@) is Some),
        r matches Some(s) ==> Some(s@) == pretty_field(bytes@, key@),
{
    let value = serde_json::from_slice::<serde_json::Value>(bytes).ok()?;
    serde_json::to_string_pretty(value.get(key)?).ok()
}

/// A reply as it is shown: laid out where it is JSON, and as the one field `raw` of an object
/// otherwise.
pub open spec fn shown_reply(text: Seq<char>) -> Seq<char> {
    match pretty_json(text) {
        Some(s) => s,
        None => match pretty_json("{\"raw\":"@ + json_quoted(text) + "}"@) {
            Some(s) => s,
            None => seq![],
        },
    }
}

/// Lays a reply out.
pub fn show_reply(text: &str) -> (r: String)
    ensures
        r@ == shown_reply(text@),
{
    match pretty(text) {
        Some(s) => s,
        None => {
            let raw = "{\"raw\":".to_owned().concat(quote(text).as_str()).concat("}");
            match pretty(raw.as_str()) {
                Some(s) => s,
                None => String::new(),
            }
        },
    }
}

/// A list that a JSON object holds is given as it is written there, and an empty one only where
/// it holds nothing under the key.
pub proof fn law_lists_are_given_as_written(bytes: Seq<u8>, key: Seq<char>)
    ensures
        field_text(bytes, key) matches Some(s) ==> list_text(bytes, key) == s,
        field_text(bytes, key) is None ==> list_text(bytes, key) == "[]"@,
{
}

/// A reply that is JSON is shown laid out, and any other as the text under `raw`.
pub proof fn law_replies_are_shown_whole(text: Seq<char>)
    ensures
        pretty_json(text) matches Some(s) ==> shown_reply(text) == s,
        pretty_json(text) is None ==> {
            let wrapped = "{\"raw\":"@ + seq!['"'] + escaped_text(text) + seq!['"'] + "}"@;
            pretty_json(wrapped) matches Some(s) ==> shown_reply(text) == s
        },
{
    let wrapped = "{\"raw\":"@ + seq!['"'] + escaped_text(text) + seq!['"'] + "}"@;
    assert(wrapped =~= "{\"raw\":"@ + json_quoted(text) + "}"@);
}

} // verus!
