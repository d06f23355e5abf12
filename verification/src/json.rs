//! JSON text, read and written by the `serde_json` crate. The library
//! holds a JSON value as its text in compact form.

use vstd::prelude::*;
use vstd::string::*;
use crate::hex::hex_digit;
use crate::text::owned;

verus! {

/// The JSON value that a text holds, as its text in compact form; none
/// where the text is not one JSON value.
pub uninterp spec fn json_value(text: Seq<char>) -> Option<Seq<char>>;

/// What stands for a character inside a JSON string literal: the double
/// quote and the backslash get a backslash before them; backspace, tab,
/// line feed, form feed and carriage return are written as `\b`, `\t`,
/// `\n`, `\f` and `\r`; every other character below the space is written
/// as `\u00` and its two lower-case hexadecimal digits; every other
/// character stands for itself.
pub open spec fn json_escape(c: char) -> Seq<char> {
    if c == '"' {
        seq!['\\', '"']
    } else if c == '\\' {
        seq!['\\', '\\']
    } else if c == '\u{8}' {
        seq!['\\', 'b']
    } else if c == '\t' {
        seq!['\\', 't']
    } else if c == '\n' {
        seq!['\\', 'n']
    } else if c == '\u{c}' {
        seq!['\\', 'f']
    } else if c == '\r' {
        seq!['\\', 'r']
    } else if (c as u32) < 0x20 {
        seq!['\\', 'u', '0', '0', hex_digit(c as u32 as int / 16), hex_digit(c as u32 as int % 16)]
    } else {
        seq![c]
    }
}

/// A text with each of its characters as it stands inside a JSON string
/// literal.
pub open spec fn json_escaped(text: Seq<char>) -> Seq<char>
    decreases text.len(),
{
    if text.len() == 0 {
        Seq::empty()
    } else {
        json_escaped(text.drop_last()) + json_escape(text.last())
    }
}

/// Whether a character stands for itself inside a JSON string literal.
pub open spec fn is_plain(c: char) -> bool {
    c != '"' && c != '\\' && (c as u32) >= 0x20
}

/// The JSON string literal for a text: the escaped text between double
/// quotes.
pub open spec fn json_string(text: Seq<char>) -> Seq<char> {
    seq!['"'] + json_escaped(text) + seq!['"']
}

/// A text without double quotes, backslashes and characters below the
/// space is quoted as it is.
pub proof fn lemma_json_string_plain(text: Seq<char>)
    requires
        forall|i: int| 0 <= i < text.len() ==> is_plain(#[trigger] text[i]),
    ensures
        json_escaped(text) == text,
        json_string(text) == seq!['"'] + text + seq!['"'],
    decreases text.len(),
{
    if text.len() > 0 {
        let front = text.drop_last();
        assert forall|i: int| 0 <= i < front.len() implies is_plain(#[trigger] front[i]) by {
            assert(front[i] == text[i]);
        }
        lemma_json_string_plain(front);
        assert(is_plain(text[text.len() - 1]));
        assert(json_escape(text.last()) =~= seq![text.last()]);
        assert(front + seq![text.last()] =~= text);
    } else {
        assert(json_escaped(text) =~= text);
    }
}

/// The text of an optional string.
pub open spec fn opt_text(o: Option<String>) -> Option<Seq<char>> {
    match o {
        Some(s) => Some(s@),
        None => None,
    }
}

/// The JSON document that a text holds, in compact form; none where the
/// text is not a JSON value, or is the value `null`.
pub open spec fn json_document(text: Seq<char>) -> Option<Seq<char>> {
    match json_value(text) {
        Some(value) => if value == "null"@ {
            None
        } else {
            Some(value)
        },
        None => None,
    }
}

/// Trusted: `serde_json::from_str`, asked for a `Value`, returns the value
/// that the text holds, or an error for a text that is not one JSON
/// value. The value is handed on as its display form, which is its
/// compact JSON text. What comes back depends on the text alone.
#[verifier::external_body]
pub(crate) fn parse_value(text: &str) -> (r: Option<String>)
    ensures
        opt_text(r) == json_value(text@),
{
    let parsed: Option<serde_json::Value> = serde_json::from_str(text).ok();
    parsed.map(|value| value.to_string())
}

/// Trusted: `serde_json::to_string` of a string slice returns the JSON
/// string literal for it: a double quote, the text with the double quote,
/// the backslash and the characters below the space escaped as
/// [`json_escape`] says, and a double quote. It does not fail for a
/// string.
#[verifier::external_body]
pub(crate) fn quote(text: &str) -> (r: String)
    ensures
        r@ == json_string(text@),
{
    serde_json::to_string(text).unwrap_or_default()
}

/// Reads a JSON document: see [`json_document`].
pub fn parse_document(text: &str) -> (r: Option<String>)
    ensures
        opt_text(r) == json_document(text@),
{
    match parse_value(text) {
        Some(value) => {
            let null = owned("null");
            if value == null {
                None
            } else {
                Some(value)
            }
        },
        None => None,
    }
}

} // verus!
