//! Percent-encoding: how a name travels in a path or a query.

use vstd::prelude::*;

use crate::text;

verus! {

/// Whether a byte is written as it is. A slash is, in a path.
pub open spec fn is_safe(b: u8, path_segment: bool) -> bool {
    ||| 0x30 <= b <= 0x39
    ||| 0x41 <= b <= 0x5a
    ||| 0x61 <= b <= 0x7a
    ||| b == 0x2d
    ||| b == 0x5f
    ||| b == 0x2e
    ||| b == 0x7e
    ||| (path_segment && b == 0x2f)
}

/// The hexadecimal digit for a number below sixteen.
pub open spec fn hex_digit(n: u8) -> u8 {
    if n < 10 {
        (0x30 + n) as u8
    } else {
        (0x37 + n) as u8
    }
}

/// How one byte is written.
pub open spec fn escaped_byte(b: u8, path_segment: bool) -> Seq<u8> {
    if is_safe(b, path_segment) {
        seq![b]
    } else {
        seq![0x25u8, hex_digit(b / 16), hex_digit(b % 16)]
    }
}

/// How some bytes are written.
pub open spec fn escaped(bytes: Seq<u8>, path_segment: bool) -> Seq<u8>
    decreases bytes.len(),
{
    if bytes.len() == 0 {
        Seq::<u8>::empty()
    } else {
        escaped(bytes.drop_last(), path_segment) + escaped_byte(bytes.last(), path_segment)
    }
}

/// The characters of some ASCII bytes.
pub open spec fn ascii_chars(bytes: Seq<u8>) -> Seq<char> {
    bytes.map_values(|b: u8| b as char)
}

/// How a text is written.
pub open spec fn encoded(raw: Seq<char>, path_segment: bool) -> Seq<char> {
    ascii_chars(escaped(vstd::utf8::encode_utf8(raw), path_segment))
}

/// The number a hexadecimal digit stands for.
pub open spec fn hex_value(b: u8) -> Option<u8> {
    if 0x30 <= b <= 0x39 {
        Some((b - 0x30) as u8)
    } else if 0x41 <= b <= 0x46 {
        Some((b - 0x37) as u8)
    } else if 0x61 <= b <= 0x66 {
        Some((b - 0x57) as u8)
    } else {
        None
    }
}

/// The byte that two characters of an escape stand for: both are hexadecimal
/// digits.
pub open spec fn escape_value(a: u8, b: u8) -> Option<u8> {
    match (hex_value(a), hex_value(b)) {
        (Some(high), Some(low)) => Some((high * 16 + low) as u8),
        _ => None,
    }
}

/// Bytes with their escapes read. What is no escape stands as it is.
pub open spec fn unescaped(bytes: Seq<u8>) -> Seq<u8>
    decreases bytes.len(),
{
    if bytes.len() == 0 {
        Seq::<u8>::empty()
    } else if bytes[0] == 0x25 && bytes.len() > 2 && escape_value(bytes[1], bytes[2]) is Some {
        seq![escape_value(bytes[1], bytes[2])->0] + unescaped(bytes.skip(3))
    } else {
        seq![bytes[0]] + unescaped(bytes.skip(1))
    }
}

/// A text with its escapes read.
pub open spec fn decoded(input: Seq<char>) -> Seq<char> {
    text::lossy_text(unescaped(vstd::utf8::encode_utf8(input)))
}

/// A text with spaces for its plus signs.
pub open spec fn plus_as_space(input: Seq<char>) -> Seq<char> {
    input.map_values(
        |c: char|
            if c == '+' {
                ' '
            } else {
                c
            },
    )
}

/// A part of a query with its escapes read.
pub open spec fn decoded_plus(input: Seq<char>) -> Seq<char> {
    decoded(plus_as_space(input))
}

fn safe(b: u8, path_segment: bool) -> (r: bool)
    ensures
        r == is_safe(b, path_segment),
{
    (0x30 <= b && b <= 0x39) || (0x41 <= b && b <= 0x5a) || (0x61 <= b && b <= 0x7a) || b == 0x2d
        || b == 0x5f || b == 0x2e || b == 0x7e || (path_segment && b == 0x2f)
}

fn hex(n: u8) -> (r: u8)
    requires
        n < 16,
    ensures
        r == hex_digit(n),
        r < 0x80,
{
    if n < 10 {
        0x30 + n
    } else {
        0x37 + n
    }
}

/// Percent-encodes a path segment or query value.
///
/// Tag names may hold slashes, and the API reads the whole path remainder as
/// the name, so in a path a slash is passed through, while in a query value it
/// is not. There is one encoder because that rule is a fact about the API, and
/// two clients encoding it differently would disagree about which Tag they
/// meant.
pub fn encode(raw: &str, path_segment: bool) -> (r: String)
    ensures
        r@ == encoded(raw@, path_segment),
{
    let bytes = raw.as_bytes();
    let mut out = String::new();
    let mut i: usize = 0;
    assert(out@ =~= ascii_chars(escaped(bytes@.take(0), path_segment)));
    while i < bytes.len()
        invariant
            i <= bytes.len(),
            out@ == ascii_chars(escaped(bytes@.take(i as int), path_segment)),
        decreases bytes.len() - i,
    {
        let b = bytes[i];
        let ghost had = escaped(bytes@.take(i as int), path_segment);
        proof {
            assert(bytes@.take(i + 1).drop_last() =~= bytes@.take(i as int));
            assert(bytes@.take(i + 1).last() == b);
        }
        if safe(b, path_segment) {
            out.push(b as char);
        } else {
            out.push('%');
            out.push(hex(b / 16) as char);
            out.push(hex(b % 16) as char);
        }
        assert(out@ =~= ascii_chars(had + escaped_byte(b, path_segment)));
        i += 1;
    }
    assert(bytes@.take(i as int) =~= bytes@);
    out
}

fn hex_of(b: u8) -> (r: Option<u8>)
    ensures
        r == hex_value(b),
        r matches Some(n) ==> n < 16,
{
    if 0x30 <= b && b <= 0x39 {
        Some(b - 0x30)
    } else if 0x41 <= b && b <= 0x46 {
        Some(b - 0x37)
    } else if 0x61 <= b && b <= 0x66 {
        Some(b - 0x57)
    } else {
        None
    }
}

fn escape_of(a: u8, b: u8) -> (r: Option<u8>)
    ensures
        r == escape_value(a, b),
{
    match (hex_of(a), hex_of(b)) {
        (Some(high), Some(low)) => Some(high * 16 + low),
        _ => None,
    }
}

/// Decodes `%XX` escapes. Invalid escapes are left as written rather than
/// rejected: a stray `%` in a Tag name should not be a protocol error.
pub fn percent_decode(input: &str) -> (r: String)
    ensures
        r@ == decoded(input@),
{
    let bytes = input.as_bytes();
    let mut out: Vec<u8> = Vec::new();
    let mut i: usize = 0;
    assert(bytes@.skip(0) =~= bytes@);
    assert(out@ + unescaped(bytes@) =~= unescaped(bytes@));
    while i < bytes.len()
        invariant
            i <= bytes.len(),
            unescaped(bytes@) == out@ + unescaped(bytes@.skip(i as int)),
        decreases bytes.len() - i,
    {
        let ghost rest = bytes@.skip(i as int);
        let ghost had = out@;
        assert(rest[0] == bytes@[i as int]);
        let mut escape: Option<u8> = None;
        if bytes[i] == 0x25 && bytes.len() - i > 2 {
            escape = escape_of(bytes[i + 1], bytes[i + 2]);
            assert(rest[1] == bytes@[i + 1] && rest[2] == bytes@[i + 2]);
        }
        match escape {
            Some(byte) => {
                out.push(byte);
                assert(rest.skip(3) =~= bytes@.skip(i + 3));
                assert(had + (seq![byte] + unescaped(bytes@.skip(i + 3))) =~= out@ + unescaped(
                    bytes@.skip(i + 3),
                ));
                i += 3;
            },
            None => {
                out.push(bytes[i]);
                assert(rest.skip(1) =~= bytes@.skip(i + 1));
                assert(had + (seq![bytes@[i as int]] + unescaped(bytes@.skip(i + 1))) =~= out@
                    + unescaped(bytes@.skip(i + 1)));
                i += 1;
            },
        }
    }
    assert(out@ =~= unescaped(bytes@));
    text::from_utf8_lossy(out.as_slice())
}

/// Query strings additionally spell a space as `+`.
pub fn percent_decode_plus(input: &str) -> (r: String)
    ensures
        r@ == decoded_plus(input@),
{
    let chars = text::chars_of(input);
    let mut spaced = String::new();
    let mut i: usize = 0;
    while i < chars.len()
        invariant
            i <= chars.len(),
            chars@ == input@,
            spaced@ == plus_as_space(input@).take(i as int),
        decreases chars.len() - i,
    {
        spaced.push(if chars[i] == '+' { ' ' } else { chars[i] });
        i += 1;
        assert(spaced@ =~= plus_as_space(input@).take(i as int));
    }
    assert(spaced@ =~= plus_as_space(input@));
    percent_decode(spaced.as_str())
}

// ---------------------------------------------------------------------------
// Reading back
// ---------------------------------------------------------------------------

/// Escapes are ASCII, and hold no plus sign, question mark, ampersand or equals
/// sign.
pub proof fn lemma_escaped_is_plain(bytes: Seq<u8>, path_segment: bool)
    ensures
        forall|i: int|
            0 <= i < escaped(bytes, path_segment).len() ==> ({
                let b = #[trigger] escaped(bytes, path_segment)[i];
                b < 0x80 && b != 0x2b && b != 0x3f && b != 0x26 && b != 0x3d
            }),
    decreases bytes.len(),
{
    if bytes.len() > 0 {
        lemma_escaped_is_plain(bytes.drop_last(), path_segment);
        let head = escaped(bytes.drop_last(), path_segment);
        let tail = escaped_byte(bytes.last(), path_segment);
        let all = escaped(bytes, path_segment);
        assert forall|i: int| 0 <= i < all.len() implies ({
            let b = #[trigger] all[i];
            b < 0x80 && b != 0x2b && b != 0x3f && b != 0x26 && b != 0x3d
        }) by {
            if i < head.len() {
                assert(all[i] == head[i]);
            } else {
                assert(all[i] == tail[i - head.len()]);
            }
        }
    }
}

proof fn lemma_escape_reads_back(b: u8)
    ensures
        escape_value(hex_digit(b / 16), hex_digit(b % 16)) == Some(b),
{
    let high = b / 16;
    let low = b % 16;
    assert(hex_value(hex_digit(high)) == Some(high));
    assert(hex_value(hex_digit(low)) == Some(low));
    assert(high * 16 + low == b);
}

/// Reading escapes from the front: what is written before stays apart from what
/// follows.
proof fn lemma_unescaped_from_the_front(bytes: Seq<u8>, path_segment: bool, rest: Seq<u8>)
    ensures
        unescaped(escaped(bytes, path_segment) + rest) == bytes + unescaped(rest),
    decreases bytes.len(),
{
    if bytes.len() == 0 {
        assert(escaped(bytes, path_segment) + rest =~= rest);
        assert(bytes + unescaped(rest) =~= unescaped(rest));
    } else {
        let head = bytes.drop_last();
        let last = bytes.last();
        let tail = escaped_byte(last, path_segment) + rest;
        lemma_unescaped_from_the_front(head, path_segment, tail);
        assert(escaped(bytes, path_segment) + rest =~= escaped(head, path_segment) + tail);
        if is_safe(last, path_segment) {
            assert(tail.skip(1) =~= rest);
            assert(tail[0] == last);
        } else {
            lemma_escape_reads_back(last);
            assert(tail.skip(3) =~= rest);
            assert(tail[0] == 0x25 && tail[1] == hex_digit(last / 16) && tail[2] == hex_digit(
                last % 16,
            ));
        }
        assert(unescaped(tail) == seq![last] + unescaped(rest));
        assert(head + (seq![last] + unescaped(rest)) =~= bytes + unescaped(rest));
    }
}

/// Plain bytes stand as they are when escapes are read after them.
pub proof fn lemma_unescaped_plain_prefix(plain: Seq<u8>, rest: Seq<u8>)
    requires
        forall|i: int| 0 <= i < plain.len() ==> #[trigger] plain[i] != 0x25,
    ensures
        unescaped(plain + rest) == plain + unescaped(rest),
    decreases plain.len(),
{
    if plain.len() == 0 {
        assert(plain + rest =~= rest);
        assert(plain + unescaped(rest) =~= unescaped(rest));
    } else {
        let more = plain.skip(1);
        assert((plain + rest)[0] == plain[0]);
        assert((plain + rest).skip(1) =~= more + rest);
        lemma_unescaped_plain_prefix(more, rest);
        assert(seq![plain[0]] + (more + unescaped(rest)) =~= plain + unescaped(rest));
    }
}

/// The bytes of an encoded text are its escapes.
pub proof fn lemma_encoded_bytes(raw: Seq<char>, path_segment: bool)
    ensures
        vstd::utf8::encode_utf8(encoded(raw, path_segment)) == escaped(
            vstd::utf8::encode_utf8(raw),
            path_segment,
        ),
        text::is_ascii_text(encoded(raw, path_segment)),
        forall|i: int|
            0 <= i < encoded(raw, path_segment).len() ==> ({
                let c = #[trigger] encoded(raw, path_segment)[i];
                c != '+' && c != '?' && c != '&' && c != '='
            }),
{
    let bytes = escaped(vstd::utf8::encode_utf8(raw), path_segment);
    let chars = encoded(raw, path_segment);
    lemma_escaped_is_plain(vstd::utf8::encode_utf8(raw), path_segment);
    assert forall|i: int| 0 <= i < chars.len() implies (#[trigger] chars[i]) as u32 == bytes[i] && ({
        let c = chars[i];
        c != '+' && c != '?' && c != '&' && c != '='
    }) by {}
    assert(vstd::utf8::is_ascii_chars(chars));
    vstd::utf8::is_ascii_chars_encode_utf8(chars);
    assert(vstd::utf8::encode_utf8(chars) =~= bytes);
}

/// What is percent-encoded decodes to itself, in a path and in a query.
pub proof fn what_is_encoded_decodes_to_itself(raw: Seq<char>, path_segment: bool)
    ensures
        decoded(encoded(raw, path_segment)) == raw,
        decoded_plus(encoded(raw, path_segment)) == raw,
{
    let bytes = vstd::utf8::encode_utf8(raw);
    lemma_encoded_bytes(raw, path_segment);
    lemma_unescaped_from_the_front(bytes, path_segment, Seq::<u8>::empty());
    assert(escaped(bytes, path_segment) + Seq::<u8>::empty() =~= escaped(bytes, path_segment));
    assert(bytes + Seq::<u8>::empty() =~= bytes);
    vstd::utf8::encode_utf8_valid_utf8(raw);
    vstd::utf8::encode_utf8_decode_utf8(raw);
    assert(plus_as_space(encoded(raw, path_segment)) =~= encoded(raw, path_segment));
}

/// A plain ASCII beginning stands as it is, and what is encoded after it
/// decodes to itself.
pub proof fn lemma_decoding_behind_a_prefix(prefix: Seq<char>, raw: Seq<char>, path_segment: bool)
    requires
        text::is_ascii_text(prefix),
        forall|i: int| 0 <= i < prefix.len() ==> #[trigger] prefix[i] != '%',
    ensures
        decoded(prefix + encoded(raw, path_segment)) == prefix + raw,
{
    let bytes = vstd::utf8::encode_utf8(raw);
    let start = vstd::utf8::encode_utf8(prefix);
    let tail = encoded(raw, path_segment);
    lemma_encoded_bytes(raw, path_segment);
    assert forall|i: int| 0 <= i < prefix.len() implies '\0' <= #[trigger] prefix[i] <= '\u{7f}' by {
        text::lemma_char_bound(prefix[i]);
    }
    vstd::utf8::is_ascii_chars_encode_utf8(prefix);
    text::lemma_bytes_of_joined(prefix, tail);
    text::lemma_bytes_of_joined(prefix, raw);
    lemma_unescaped_plain_prefix(start, escaped(bytes, path_segment));
    lemma_unescaped_from_the_front(bytes, path_segment, Seq::<u8>::empty());
    assert(escaped(bytes, path_segment) + Seq::<u8>::empty() =~= escaped(bytes, path_segment));
    assert(bytes + Seq::<u8>::empty() =~= bytes);
    assert(unescaped(vstd::utf8::encode_utf8(prefix + tail)) == vstd::utf8::encode_utf8(
        prefix + raw,
    ));
    vstd::utf8::encode_utf8_valid_utf8(prefix + raw);
    vstd::utf8::encode_utf8_decode_utf8(prefix + raw);
}

/// Which bytes stand as they are: letters, digits, `-`, `_`, `.` and `~`, and in
/// a path the slash. Every other is a percent sign and its two hexadecimal digits
/// in capitals.
pub proof fn an_escape_is_a_percent_sign_and_two_digits(b: u8, path_segment: bool)
    ensures
        ({
            let out = escaped_byte(b, path_segment);
            let c = b as char;
            let plain = ('a' <= c <= 'z') || ('A' <= c <= 'Z') || ('0' <= c <= '9') || c == '-'
                || c == '_' || c == '.' || c == '~' || (path_segment && c == '/');
            &&& plain ==> out == seq![b]
            &&& !plain ==> out.len() == 3 && out[0] as char == '%' && escape_value(out[1], out[2])
                == Some(b)
            &&& b == 0x20 ==> out == seq![0x25u8, 0x32u8, 0x30u8]
            &&& b == 0x2b ==> out == seq![0x25u8, 0x32u8, 0x42u8]
            &&& b == 0x26 ==> out == seq![0x25u8, 0x32u8, 0x36u8]
        }),
{
    assert(0x20u8 / 16 == 2 && 0x20u8 % 16 == 0);
    assert((b / 16) * 16 + b % 16 == b);
}

/// What two hexadecimal digits mean, in capitals or small letters.
pub proof fn a_hexadecimal_digit_is_read_in_any_case(b: u8)
    ensures
        '0' <= b as char <= '9' ==> hex_value(b) == Some((b - 48) as u8),
        'a' <= b as char <= 'f' ==> hex_value(b) == Some((b - 97 + 10) as u8),
        'A' <= b as char <= 'F' ==> hex_value(b) == Some((b - 65 + 10) as u8),
        !('0' <= b as char <= '9') && !('a' <= b as char <= 'f') && !('A' <= b as char <= 'F')
            ==> hex_value(b) is None,
{
}

/// Escapes are read where they stand and nothing else is touched: a percent sign
/// with two hexadecimal digits behind it is one byte, and any other byte itself.
pub proof fn an_escape_is_one_byte(high: u8, low: u8, b: u8, rest: Seq<u8>)
    ensures
        hex_value(high) is Some && hex_value(low) is Some ==> unescaped(
            seq![0x25u8, high, low] + rest,
        ) == seq![(hex_value(high)->0 * 16 + hex_value(low)->0) as u8] + unescaped(rest),
        b != 0x25 ==> unescaped(seq![b] + rest) == seq![b] + unescaped(rest),
        rest.len() < 2 ==> unescaped(seq![0x25u8] + rest) == seq![0x25u8] + unescaped(rest),
        unescaped(Seq::empty()).len() == 0,
{
    let three = seq![0x25u8, high, low] + rest;
    assert(three.skip(3) =~= rest);
    let one = seq![b] + rest;
    assert(one.skip(1) =~= rest);
    let cut = seq![0x25u8] + rest;
    assert(cut.skip(1) =~= rest);
}

/// In a query a plus is a space.
pub proof fn a_plus_is_a_space(s: Seq<char>, i: int)
    requires
        0 <= i < s.len(),
    ensures
        plus_as_space(s).len() == s.len(),
        s[i] == '+' ==> plus_as_space(s)[i] == ' ',
        s[i] != '+' ==> plus_as_space(s)[i] == s[i],
        decoded_plus(s) == decoded(plus_as_space(s)),
{
}

} // verus!
