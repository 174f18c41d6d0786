//! The text encodings that the service hands to `serde_json`,
//! `serde_urlencoded` and the standard library, each with what the contracts
//! built on it rely on.

use vstd::prelude::*;
use vstd::utf8::{decode_utf8, valid_utf8};
use crate::text::pair_views;

verus! {

/// The sixteen hexadecimal digits, in lower case.
pub open spec fn hex_digits() -> Seq<char> {
    seq!['0', '1', '2', '3', '4', '5', '6', '7', '8', '9', 'a', 'b', 'c', 'd', 'e', 'f']
}

/// How one character stands inside a JSON string. The quotation mark and the
/// backslash get a backslash in front; backspace, tab, line feed, form feed
/// and carriage return get their letter; every other character below the
/// space is written as `\u00` and two hexadecimal digits; all others stand
/// for themselves.
pub open spec fn escaped(c: char) -> Seq<char> {
    if c == '"' {
        seq!['\\', '"']
    } else if c == '\\' {
        seq!['\\', '\\']
    } else if c == '\u{8}' {
        seq!['\\', 'b']
    } else if c == '\t' {
        seq!['\\', 't']
    } else if c == '\n' {
        seq!['\\', 'n']
    } else if c == '\u{c}' {
        seq!['\\', 'f']
    } else if c == '\r' {
        seq!['\\', 'r']
    } else if (c as u32) < 0x20 {
        seq!['\\', 'u', '0', '0', hex_digits()[(c as u32 / 16) as int], hex_digits()[(c as u32
            % 16) as int]]
    } else {
        seq![c]
    }
}

/// The characters of `text`, each as it stands inside a JSON string.
pub open spec fn escaped_text(text: Seq<char>) -> Seq<char>
    decreases text.len(),
{
    if text.len() == 0 {
        Seq::empty()
    } else {
        escaped_text(text.drop_last()) + escaped(text.last())
    }
}

/// The JSON string for a piece of text: the escaped text between quotation
/// marks.
pub open spec fn json_string(text: Seq<char>) -> Seq<char> {
    seq!['"'] + escaped_text(text) + seq!['"']
}

/// Text that holds no character with an escape stands between the quotation
/// marks as it is.
pub proof fn lemma_plain_text(text: Seq<char>)
    requires
        forall|i: int| 0 <= i < text.len() ==> escaped(#[trigger] text[i]) == seq![text[i]],
    ensures
        json_string(text) == seq!['"'] + text + seq!['"'],
{
    lemma_plain_text_escaped(text);
}

proof fn lemma_plain_text_escaped(text: Seq<char>)
    requires
        forall|i: int| 0 <= i < text.len() ==> escaped(#[trigger] text[i]) == seq![text[i]],
    ensures
        escaped_text(text) == text,
    decreases text.len(),
{
    if text.len() > 0 {
        let earlier = text.drop_last();
        assert forall|i: int| 0 <= i < earlier.len() implies escaped(#[trigger] earlier[i])
            == seq![earlier[i]] by {
            assert(earlier[i] == text[i]);
        }
        lemma_plain_text_escaped(earlier);
        assert(escaped(text.last()) == seq![text.last()]);
        assert(earlier + seq![text.last()] =~= text);
    } else {
        assert(escaped_text(text) =~= text);
    }
}

/// Calls `serde_json::to_string` on a string slice. The result is the JSON
/// string that `json_string` spells out: `serde_json` writes a quotation
/// mark, the text with its escapes, and a quotation mark. Writing a string
/// slice into a memory buffer has no failure path in `serde_json`, so the
/// call always returns.
#[verifier::external_body]
pub(crate) fn quote(text: &str) -> (r: String)
    ensures
        r@ == json_string(text@),
{
    serde_json::to_string(text).unwrap()
}

/// The name/value pairs, percent-decoded and in order, that
/// `serde_urlencoded` reads from a query string.
pub uninterp spec fn query_pairs(query: Seq<char>) -> Seq<(Seq<char>, Seq<char>)>;

/// Calls `serde_urlencoded::from_str` for a list of string pairs. Splitting
/// at `&` and `=` and decoding each part has no failure path, and neither has
/// taking each part as a string, so the call always succeeds; the list is the
/// one named `query_pairs`.
#[verifier::external_body]
pub(crate) fn parse_pairs(query: &str) -> (r: Option<Vec<(String, String)>>)
    ensures
        r is Some,
        r matches Some(pairs) ==> pair_views(pairs@) == query_pairs(query@),
{
    serde_urlencoded::from_str::<Vec<(String, String)>>(query).ok()
}

/// What the standard library says of bytes that are not UTF-8: the text of
/// its error for them.
pub uninterp spec fn utf8_error_text(bytes: Seq<u8>) -> Seq<char>;

/// Calls `String::from_utf8`. The call succeeds exactly on valid UTF-8 and
/// then gives the text that the bytes encode; otherwise the error's own
/// description comes back, named `utf8_error_text`.
#[verifier::external_body]
pub(crate) fn text_from_utf8(bytes: Vec<u8>) -> (r: Result<String, String>)
    ensures
        r is Ok <==> valid_utf8(bytes@),
        r matches Ok(text) ==> text@ == decode_utf8(bytes@),
        r matches Err(reason) ==> reason@ == utf8_error_text(bytes@),
{
    match String::from_utf8(bytes) {
        Ok(text) => Ok(text),
        Err(error) => Err(error.to_string()),
    }
}

} // verus!
