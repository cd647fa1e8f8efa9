//! JSON as it goes out: compact, fields in the order they are declared.
//!
//! The shapes are this project's. The one thing asked of `serde_json` is how a
//! string is written.

use vstd::prelude::*;

use crate::text;

verus! {

/// The hexadecimal digit for a number below sixteen, in small letters.
pub open spec fn hex_char(n: int) -> char {
    if n < 10 {
        ('0' as int + n) as char
    } else {
        ('a' as int + n - 10) as char
    }
}

/// How JSON writes a character within a string.
pub open spec fn escaped_char(c: char) -> Seq<char> {
    if c == '"' {
        seq!['\\', '"']
    } else if c == '\\' {
        seq!['\\', '\\']
    } else if c == '\u{8}' {
        seq!['\\', 'b']
    } else if c == '\t' {
        seq!['\\', 't']
    } else if c == '\n' {
        seq!['\\', 'n']
    } else if c == '\u{c}' {
        seq!['\\', 'f']
    } else if c == '\r' {
        seq!['\\', 'r']
    } else if c <= '\u{1f}' {
        seq!['\\', 'u', '0', '0', hex_char(c as int / 16), hex_char(c as int % 16)]
    } else {
        seq![c]
    }
}

/// How JSON writes the characters of a string.
pub open spec fn escaped_text(s: Seq<char>) -> Seq<char>
    decreases s.len(),
{
    if s.len() == 0 {
        Seq::<char>::empty()
    } else {
        escaped_text(s.drop_last()) + escaped_char(s.last())
    }
}

/// How JSON writes a string: in double quotes. A quote, a backslash and the
/// control characters below the space are escaped, and nothing else is.
pub open spec fn json_text(s: Seq<char>) -> Seq<char> {
    seq!['"'] + escaped_text(s) + seq!['"']
}

/// `serde_json::to_string` on a `str`: the string in double quotes, with the
/// short escapes where there is one and `\u00` with two hexadecimal digits for
/// the other control characters. It writes into memory, and that does not fail.
#[verifier::external_body]
pub(crate) fn string(s: &str) -> (r: String)
    ensures
        r@ == json_text(s@),
{
    serde_json::to_string(s).unwrap_or_default()
}

/// One field of an object.
pub open spec fn field_text(name: Seq<char>, value: Seq<char>) -> Seq<char> {
    "\""@ + name + "\":"@ + value
}

/// An object with these fields.
pub open spec fn object_text(fields: Seq<Seq<char>>) -> Seq<char> {
    "{"@ + text::joined(fields, ","@) + "}"@
}

/// An array of these values.
pub open spec fn array_text(items: Seq<Seq<char>>) -> Seq<char> {
    "["@ + text::joined(items, ","@) + "]"@
}

/// A number, or `null` where there is none.
pub open spec fn number_or_null(n: Option<int>) -> Seq<char> {
    match n {
        Some(n) => text::decimal(n),
        None => "null"@,
    }
}

/// An array of strings.
pub open spec fn strings_text(strings: Seq<Seq<char>>) -> Seq<char> {
    array_text(strings.map_values(|s: Seq<char>| json_text(s)))
}

/// Writes one field of an object.
pub fn field(name: &str, value: &str) -> (r: String)
    ensures
        r@ == field_text(name@, value@),
{
    let mut out = "\"".to_owned();
    out.push_str(name);
    out.push_str("\":");
    out.push_str(value);
    out
}

/// Writes an object with these fields.
pub fn object(fields: &Vec<String>) -> (r: String)
    ensures
        r@ == object_text(text::texts(fields@)),
{
    let mut out = "{".to_owned();
    out.push_str(text::join(fields, ",").as_str());
    out.push_str("}");
    out
}

/// Writes an array of these values.
pub fn array(items: &Vec<String>) -> (r: String)
    ensures
        r@ == array_text(text::texts(items@)),
{
    let mut out = "[".to_owned();
    out.push_str(text::join(items, ",").as_str());
    out.push_str("]");
    out
}

/// Writes a number, or `null` where there is none.
pub fn optional(n: Option<i64>) -> (r: String)
    ensures
        r@ == number_or_null(
            match n {
                Some(n) => Some(n as int),
                None => None,
            },
        ),
{
    match n {
        Some(n) => text::decimal_i64(n),
        None => "null".to_owned(),
    }
}

/// Writes an array of strings.
pub fn strings(items: &Vec<String>) -> (r: String)
    ensures
        r@ == strings_text(text::texts(items@)),
{
    let mut written: Vec<String> = Vec::new();
    let ghost want = text::texts(items@).map_values(|s: Seq<char>| json_text(s));
    let mut i: usize = 0;
    while i < items.len()
        invariant
            i <= items.len(),
            want == text::texts(items@).map_values(|s: Seq<char>| json_text(s)),
            text::texts(written@) == want.take(i as int),
        decreases items.len() - i,
    {
        let ghost had = text::texts(written@);
        let one = string(items[i].as_str());
        let ghost shown = one@;
        written.push(one);
        assert(text::texts(written@) =~= had.push(shown));
        assert(want.take(i + 1) =~= want.take(i as int).push(want[i as int]));
        i += 1;
    }
    assert(want.take(i as int) =~= want);
    array(&written)
}

/// A text is escaped character by character: a quote, a backslash and what ends
/// or moves a line by their letters, other characters that print nothing by four
/// hexadecimal digits, and the rest as they are.
pub proof fn a_text_is_escaped_by_the_character(s: Seq<char>, c: char)
    ensures
        ({
            let before = escaped_text(s);
            let after = escaped_text(s.push(c));
            &&& c == '"' ==> after == before + seq!['\\', '"']
            &&& c == '\\' ==> after == before + seq!['\\', '\\']
            &&& c == '\n' ==> after == before + seq!['\\', 'n']
            &&& c == '\r' ==> after == before + seq!['\\', 'r']
            &&& c == '\t' ==> after == before + seq!['\\', 't']
            &&& c == '\u{8}' ==> after == before + seq!['\\', 'b']
            &&& c == '\u{c}' ==> after == before + seq!['\\', 'f']
            &&& c == '\u{0}' ==> after == before + seq!['\\', 'u', '0', '0', '0', '0']
            &&& c == '\u{1b}' ==> after == before + seq!['\\', 'u', '0', '0', '1', 'b']
            &&& c == '\u{1f}' ==> after == before + seq!['\\', 'u', '0', '0', '1', 'f']
            &&& c >= ' ' && c != '"' && c != '\\' ==> after == before + seq![c]
        }),
        escaped_text(Seq::empty()).len() == 0,
        json_text(s) == seq!['"'] + escaped_text(s) + seq!['"'],
{
    assert(s.push(c).drop_last() =~= s);
}

} // verus!
