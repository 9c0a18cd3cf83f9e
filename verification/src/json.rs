//! The JSON text of an object with one string member, written by `serde_json`.

use vstd::prelude::*;

verus! {

/// The lower-case hexadecimal digit that stands for `value`, for `value` below 16.
pub open spec fn hex_digit(value: int) -> char {
    if value < 10 {
        ('0' as u8 + value) as u8 as char
    } else {
        ('a' as u8 + value - 10) as u8 as char
    }
}

/// Whether a character is written with a backslash inside a JSON string.
pub open spec fn needs_escape(c: char) -> bool {
    c == '"' || c == '\\' || (c as u32) < 0x20
}

/// What stands for one character inside a JSON string: the two-character
/// escapes for the quote, the backslash and the five named control
/// characters, `\u00XX` for every other character below U+0020, and the
/// character itself otherwise.
pub open spec fn escaped_char(c: char) -> Seq<char> {
    if c == '"' {
        seq!['\\', '"']
    } else if c == '\\' {
        seq!['\\', '\\']
    } else if c == '\u{8}' {
        seq!['\\', 'b']
    } else if c == '\t' {
        seq!['\\', 't']
    } else if c == '\n' {
        seq!['\\', 'n']
    } else if c == '\u{c}' {
        seq!['\\', 'f']
    } else if c == '\r' {
        seq!['\\', 'r']
    } else if (c as u32) < 0x20 {
        seq!['\\', 'u', '0', '0', hex_digit(c as int / 16), hex_digit(c as int % 16)]
    } else {
        seq![c]
    }
}

/// The characters of `text` with every character replaced by what stands for it.
pub open spec fn escaped(text: Seq<char>) -> Seq<char>
    decreases text.len(),
{
    if text.len() == 0 {
        Seq::empty()
    } else {
        escaped(text.drop_last()) + escaped_char(text.last())
    }
}

/// A JSON string: the escaped text between two quotes.
pub open spec fn string_text(text: Seq<char>) -> Seq<char> {
    seq!['"'] + escaped(text) + seq!['"']
}

/// The compact JSON text of an object whose only member is `key` with the
/// string `value`.
pub open spec fn object_text(key: Seq<char>, value: Seq<char>) -> Seq<char> {
    seq!['{'] + string_text(key) + seq![':'] + string_text(value) + seq!['}']
}

/// Builds a `serde_json::Value::Object` with the one member `key: value` and
/// returns its `to_string()`. The contract claims that this is the compact
/// form: braces, the key and the value as JSON strings, a colon between them, no
/// white space, and the escapes of `escaped_char`.
#[verifier::external_body]
pub(crate) fn single_member_object(key: &str, value: &str) -> (text: String)
    ensures
        text@ == object_text(key@, value@),
{
    let mut object = serde_json::Map::new();
    object.insert(key.to_string(), serde_json::Value::String(value.to_string()));
    serde_json::Value::Object(object).to_string()
}

/// Text without a quote, a backslash or a control character is its own
/// escaped form.
pub proof fn lemma_plain_text_is_unescaped(text: Seq<char>)
    requires
        forall|i: int| 0 <= i < text.len() ==> !needs_escape(#[trigger] text[i]),
    ensures
        escaped(text) == text,
    decreases text.len(),
{
    if text.len() > 0 {
        lemma_plain_text_is_unescaped(text.drop_last());
        assert(!needs_escape(text[text.len() - 1]));
        assert(escaped_char(text.last()) == seq![text.last()]);
        assert(text.drop_last() + seq![text.last()] =~= text);
    }
}

} // verus!
