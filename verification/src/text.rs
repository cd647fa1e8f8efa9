//! Text: the few operations on characters that everything else is written in.
//!
//! A string is modelled by the sequence of its characters, so every contract
//! here is about `Seq<char>`.

use vstd::prelude::*;
use vstd::string::StringExecFns;

verus! {

broadcast use vstd::seq_lib::group_seq_properties;

/// `String::push`: appends the one character to the end of the string.
pub assume_specification[ String::push ](s: &mut String, c: char)
    ensures
        final(s)@ == old(s)@.push(c),
;

/// `String::push_str`: appends the whole of the other string to the end.
pub assume_specification[ String::push_str ](s: &mut String, other: &str)
    ensures
        final(s)@ == old(s)@ + other@,
;

/// The characters of a string, as a vector.
pub fn chars_of(s: &str) -> (chars: Vec<char>)
    ensures
        chars@ == s@,
{
    let mut chars: Vec<char> = Vec::new();
    for c in it: s.chars()
        invariant
            it.seq() == s@,
            chars@ == s@.take(it.index() as int),
    {
        chars.push(c);
    }
    chars
}

/// The string spelled by a run of characters.
pub fn text_of(chars: &[char]) -> (text: String)
    ensures
        text@ == chars@,
{
    let mut text = String::new();
    let mut i: usize = 0;
    while i < chars.len()
        invariant
            i <= chars.len(),
            text@ == chars@.take(i as int),
        decreases chars.len() - i,
    {
        text.push(chars[i]);
        i += 1;
    }
    text
}

/// Whether two strings are the same, character for character.
pub fn same(a: &str, b: &str) -> (r: bool)
    ensures
        r == (a@ == b@),
{
    let left = chars_of(a);
    let right = chars_of(b);
    if left.len() != right.len() {
        return false;
    }
    let mut i: usize = 0;
    while i < left.len()
        invariant
            i <= left.len(),
            left.len() == right.len(),
            left@ == a@,
            right@ == b@,
            forall|j: int| 0 <= j < i ==> left@[j] == right@[j],
        decreases left.len() - i,
    {
        if left[i] != right[i] {
            return false;
        }
        i += 1;
    }
    assert(a@ =~= b@);
    true
}

// ---------------------------------------------------------------------------
// Classes of character
// ---------------------------------------------------------------------------

/// The characters Unicode calls `White_Space`.
pub open spec fn is_white_space(c: char) -> bool {
    ||| '\u{9}' <= c <= '\u{d}'
    ||| c == ' '
    ||| c == '\u{85}'
    ||| c == '\u{a0}'
    ||| c == '\u{1680}'
    ||| '\u{2000}' <= c <= '\u{200a}'
    ||| c == '\u{2028}'
    ||| c == '\u{2029}'
    ||| c == '\u{202f}'
    ||| c == '\u{205f}'
    ||| c == '\u{3000}'
}

/// The characters Unicode calls control characters (`Cc`).
pub open spec fn is_control(c: char) -> bool {
    c <= '\u{1f}' || '\u{7f}' <= c <= '\u{9f}'
}

/// Whether a character is white space.
pub fn white_space(c: char) -> (r: bool)
    ensures
        r == is_white_space(c),
{
    ('\u{9}' <= c && c <= '\u{d}') || c == ' ' || c == '\u{85}' || c == '\u{a0}' || c == '\u{1680}'
        || ('\u{2000}' <= c && c <= '\u{200a}') || c == '\u{2028}' || c == '\u{2029}' || c
        == '\u{202f}' || c == '\u{205f}' || c == '\u{3000}'
}

/// Whether a character is a control character.
pub fn control(c: char) -> (r: bool)
    ensures
        r == is_control(c),
{
    c <= '\u{1f}' || ('\u{7f}' <= c && c <= '\u{9f}')
}

// ---------------------------------------------------------------------------
// Trimming
// ---------------------------------------------------------------------------

/// What is left once leading white space is dropped.
pub open spec fn trimmed_start(s: Seq<char>) -> Seq<char>
    decreases s.len(),
{
    if s.len() > 0 && is_white_space(s[0]) {
        trimmed_start(s.skip(1))
    } else {
        s
    }
}

/// What is left once trailing white space is dropped.
pub open spec fn trimmed_end(s: Seq<char>) -> Seq<char>
    decreases s.len(),
{
    if s.len() > 0 && is_white_space(s.last()) {
        trimmed_end(s.drop_last())
    } else {
        s
    }
}

/// What is left once white space is dropped at both ends.
pub open spec fn trimmed(s: Seq<char>) -> Seq<char> {
    trimmed_end(trimmed_start(s))
}

/// Drops white space at both ends.
pub fn trim(s: &str) -> (text: String)
    ensures
        text@ == trimmed(s@),
{
    let chars = chars_of(s);
    let mut from: usize = 0;
    while from < chars.len() && white_space(chars[from])
        invariant
            from <= chars.len(),
            trimmed_start(chars@) == trimmed_start(chars@.skip(from as int)),
        decreases chars.len() - from,
    {
        assert(chars@.skip(from as int).skip(1) =~= chars@.skip(from + 1));
        from += 1;
    }
    let ghost body = chars@.skip(from as int);
    assert(trimmed_start(chars@) == body);
    let mut to: usize = chars.len();
    while from < to && white_space(chars[to - 1])
        invariant
            from <= to <= chars.len(),
            body == chars@.skip(from as int),
            trimmed_end(body) == trimmed_end(body.take(to - from)),
        decreases to - from,
    {
        assert(body.take(to - from).drop_last() =~= body.take(to - from - 1));
        assert(body.take(to - from).last() == chars@[to - 1]);
        to -= 1;
    }
    proof {
        let kept = body.take(to - from);
        assert(kept.len() > 0 ==> kept.last() == chars@[to - 1]);
        assert(trimmed_end(body) == kept);
        assert(kept =~= chars@.subrange(from as int, to as int));
    }
    text_between(&chars, from, to)
}

/// Drops white space at the end.
pub fn trim_end(s: &str) -> (text: String)
    ensures
        text@ == trimmed_end(s@),
{
    let chars = chars_of(s);
    let mut to: usize = chars.len();
    assert(s@.take(to as int) =~= s@);
    while to > 0 && white_space(chars[to - 1])
        invariant
            to <= chars.len(),
            chars@ == s@,
            trimmed_end(s@) == trimmed_end(s@.take(to as int)),
        decreases to,
    {
        assert(s@.take(to as int).drop_last() =~= s@.take(to - 1));
        assert(s@.take(to as int).last() == chars@[to - 1]);
        to -= 1;
    }
    assert(to > 0 ==> s@.take(to as int).last() == chars@[to - 1]);
    assert(chars@.subrange(0, to as int) =~= s@.take(to as int));
    text_between(&chars, 0, to)
}

/// The string spelled by part of a run of characters.
pub fn text_between(chars: &Vec<char>, from: usize, to: usize) -> (text: String)
    requires
        from <= to <= chars.len(),
    ensures
        text@ == chars@.subrange(from as int, to as int),
{
    let mut text = String::new();
    let mut i: usize = from;
    while i < to
        invariant
            from <= i <= to <= chars.len(),
            text@ == chars@.subrange(from as int, i as int),
        decreases to - i,
    {
        text.push(chars[i]);
        i += 1;
        assert(chars@.subrange(from as int, i as int) =~= chars@.subrange(
            from as int,
            i - 1,
        ).push(chars@[i - 1]));
    }
    text
}

/// Trimming what has been trimmed changes nothing.
pub proof fn trimming_twice_is_trimming_once(s: Seq<char>)
    ensures
        trimmed(trimmed(s)) == trimmed(s),
{
    let head = trimmed_start(s);
    lemma_trimmed_start_head(s);
    lemma_trimmed_end_shape(head);
    let both = trimmed_end(head);
    if both.len() > 0 {
        assert(both[0] == head[0]);
    }
    assert(trimmed_start(both) == both);
}

/// What trimming the start leaves begins with no white space.
pub proof fn lemma_trimmed_start_head(s: Seq<char>)
    ensures
        trimmed_start(s).len() > 0 ==> !is_white_space(trimmed_start(s)[0]),
        trimmed_start(s).len() <= s.len(),
    decreases s.len(),
{
    if s.len() > 0 && is_white_space(s[0]) {
        lemma_trimmed_start_head(s.skip(1));
    }
}

/// What trimming the end leaves is a prefix that ends with no white space.
pub proof fn lemma_trimmed_end_shape(s: Seq<char>)
    ensures
        trimmed_end(s).len() <= s.len(),
        trimmed_end(s) == s.take(trimmed_end(s).len() as int),
        trimmed_end(s).len() > 0 ==> !is_white_space(trimmed_end(s).last()),
    decreases s.len(),
{
    if s.len() > 0 && is_white_space(s.last()) {
        lemma_trimmed_end_shape(s.drop_last());
        let n = trimmed_end(s).len() as int;
        assert(s.drop_last().take(n) =~= s.take(n));
    } else {
        assert(s.take(s.len() as int) =~= s);
    }
}

// ---------------------------------------------------------------------------
// ASCII case
// ---------------------------------------------------------------------------

/// An ASCII capital's small letter, and any other character itself.
pub open spec fn ascii_lowered_char(c: char) -> char {
    if 'A' <= c <= 'Z' {
        ((c as u32 + 32) as u32) as char
    } else {
        c
    }
}

/// A text with its ASCII capitals made small.
pub open spec fn ascii_lowered(s: Seq<char>) -> Seq<char> {
    s.map_values(|c: char| ascii_lowered_char(c))
}

/// Whether two texts differ at most in the case of ASCII letters.
pub open spec fn same_but_for_case(a: Seq<char>, b: Seq<char>) -> bool {
    ascii_lowered(a) == ascii_lowered(b)
}

/// An ASCII capital's small letter, and any other character itself.
pub fn lower_ascii(c: char) -> (r: char)
    ensures
        r == ascii_lowered_char(c),
{
    if 'A' <= c && c <= 'Z' {
        ((c as u8) + 32) as char
    } else {
        c
    }
}

/// An ASCII small letter's capital, and any other character itself.
pub open spec fn ascii_uppered_char(c: char) -> char {
    if 'a' <= c <= 'z' {
        ((c as u32 - 32) as u32) as char
    } else {
        c
    }
}

/// A text with its ASCII small letters made capital.
pub open spec fn ascii_uppered(s: Seq<char>) -> Seq<char> {
    s.map_values(|c: char| ascii_uppered_char(c))
}

/// Makes the ASCII capitals of a string small.
pub fn to_ascii_lower(s: &str) -> (text: String)
    ensures
        text@ == ascii_lowered(s@),
{
    let chars = chars_of(s);
    let mut text = String::new();
    let mut i: usize = 0;
    while i < chars.len()
        invariant
            i <= chars.len(),
            chars@ == s@,
            text@ == ascii_lowered(s@).take(i as int),
        decreases chars.len() - i,
    {
        text.push(lower_ascii(chars[i]));
        i += 1;
        assert(text@ =~= ascii_lowered(s@).take(i as int));
    }
    assert(text@ =~= ascii_lowered(s@));
    text
}

/// Makes the ASCII small letters of a string capital.
pub fn to_ascii_upper(s: &str) -> (text: String)
    ensures
        text@ == ascii_uppered(s@),
{
    let chars = chars_of(s);
    let mut text = String::new();
    let mut i: usize = 0;
    while i < chars.len()
        invariant
            i <= chars.len(),
            chars@ == s@,
            text@ == ascii_uppered(s@).take(i as int),
        decreases chars.len() - i,
    {
        let c = chars[i];
        text.push(if 'a' <= c && c <= 'z' { ((c as u8) - 32) as char } else { c });
        i += 1;
        assert(text@ =~= ascii_uppered(s@).take(i as int));
    }
    assert(text@ =~= ascii_uppered(s@));
    text
}

/// Whether two strings differ at most in the case of ASCII letters.
pub fn eq_ignore_case(a: &str, b: &str) -> (r: bool)
    ensures
        r == same_but_for_case(a@, b@),
{
    let left = chars_of(a);
    let right = chars_of(b);
    if left.len() != right.len() {
        assert(ascii_lowered(a@).len() != ascii_lowered(b@).len());
        return false;
    }
    let mut i: usize = 0;
    while i < left.len()
        invariant
            i <= left.len(),
            left.len() == right.len(),
            left@ == a@,
            right@ == b@,
            forall|j: int|
                0 <= j < i ==> #[trigger] ascii_lowered_char(left@[j]) == ascii_lowered_char(
                    right@[j],
                ),
        decreases left.len() - i,
    {
        if lower_ascii(left[i]) != lower_ascii(right[i]) {
            assert(ascii_lowered(a@)[i as int] != ascii_lowered(b@)[i as int]);
            return false;
        }
        i += 1;
    }
    assert(ascii_lowered(a@) =~= ascii_lowered(b@));
    true
}

// ---------------------------------------------------------------------------
// Numbers
// ---------------------------------------------------------------------------

/// The digit for a number below ten.
pub open spec fn digit(n: nat) -> char {
    (48 + n) as char
}

/// A natural number in decimal, without leading zeros.
pub open spec fn digits(n: nat) -> Seq<char>
    decreases n,
{
    if n < 10 {
        seq![digit(n)]
    } else {
        digits(n / 10).push(digit(n % 10))
    }
}

/// An integer in decimal, with a minus sign where it is negative.
pub open spec fn decimal(i: int) -> Seq<char> {
    if i < 0 {
        seq!['-'] + digits((-i) as nat)
    } else {
        digits(i as nat)
    }
}

/// Whether a character is one of the ten decimal digits.
pub open spec fn is_digit(c: char) -> bool {
    '0' <= c <= '9'
}

/// Whether a text is one or more decimal digits and nothing else.
pub open spec fn all_digits(s: Seq<char>) -> bool {
    s.len() > 0 && forall|i: int| 0 <= i < s.len() ==> is_digit(#[trigger] s[i])
}

/// The number a run of digits stands for.
pub open spec fn value(s: Seq<char>) -> nat
    decreases s.len(),
{
    if s.len() == 0 {
        0
    } else {
        value(s.drop_last()) * 10 + (s.last() as nat - 48) as nat
    }
}

/// A text without the sign it opens with.
pub open spec fn unsigned_part(s: Seq<char>, sign: char) -> Seq<char> {
    if s.len() > 0 && s[0] == sign {
        s.skip(1)
    } else {
        s
    }
}

/// The unsigned number a text spells, at most `max`: digits, after a plus sign
/// or none.
pub open spec fn number(s: Seq<char>, max: nat) -> Option<nat> {
    let body = unsigned_part(s, '+');
    if all_digits(body) && value(body) <= max {
        Some(value(body))
    } else {
        None
    }
}

/// The signed number a text spells: digits, after one sign or none, no further
/// from zero than an `i64` reaches.
pub open spec fn integer(s: Seq<char>) -> Option<int> {
    if s.len() > 0 && s[0] == '-' {
        let body = s.skip(1);
        if all_digits(body) && value(body) <= 0x8000_0000_0000_0000 {
            Some(-(value(body) as int))
        } else {
            None
        }
    } else {
        match number(s, i64::MAX as nat) {
            Some(n) => Some(n as int),
            None => None,
        }
    }
}

/// Writes an unsigned number in decimal.
pub fn decimal_u64(n: u64) -> (text: String)
    ensures
        text@ == digits(n as nat),
        text@ == decimal(n as int),
    decreases n,
{
    if n < 10 {
        let mut text = String::new();
        text.push((48 + n as u8) as char);
        assert(text@ =~= digits(n as nat));
        text
    } else {
        let mut text = decimal_u64(n / 10);
        text.push((48 + (n % 10) as u8) as char);
        text
    }
}

/// Writes a signed number in decimal.
pub fn decimal_i64(i: i64) -> (text: String)
    ensures
        text@ == decimal(i as int),
{
    if i < 0 {
        let mut text = String::new();
        text.push('-');
        let magnitude: u64 = if i == i64::MIN {
            0x8000_0000_0000_0000
        } else {
            (-i) as u64
        };
        text.push_str(decimal_u64(magnitude).as_str());
        assert(text@ =~= decimal(i as int));
        text
    } else {
        decimal_u64(i as u64)
    }
}

proof fn lemma_value_grows(s: Seq<char>, n: int)
    requires
        0 <= n <= s.len(),
        forall|i: int| 0 <= i < s.len() ==> is_digit(#[trigger] s[i]),
    ensures
        value(s.take(n)) <= value(s),
    decreases s.len(),
{
    if n == s.len() {
        assert(s.take(n) =~= s);
    } else {
        lemma_value_grows(s.drop_last(), n);
        assert(s.drop_last().take(n) =~= s.take(n));
        assert(value(s) >= value(s.drop_last()));
    }
}

/// The number that part of a run of characters spells in digits alone, where it
/// is at most `max`.
fn digits_from(chars: &Vec<char>, from: usize, max: u64) -> (r: Option<u64>)
    requires
        from <= chars.len(),
    ensures
        ({
            let body = chars@.skip(from as int);
            match r {
                Some(n) => all_digits(body) && value(body) == n && n <= max,
                None => !(all_digits(body) && value(body) <= max),
            }
        }),
{
    let ghost body = chars@.skip(from as int);
    if from == chars.len() {
        return None;
    }
    let mut total: u64 = 0;
    let mut i: usize = from;
    while i < chars.len()
        invariant
            from <= i <= chars.len(),
            body == chars@.skip(from as int),
            total == value(body.take(i - from)),
            total <= max,
            forall|j: int| 0 <= j < i - from ==> is_digit(#[trigger] body[j]),
        decreases chars.len() - i,
    {
        let c = chars[i];
        assert(c == body[i - from]);
        if !('0' <= c && c <= '9') {
            return None;
        }
        let d: u64 = (c as u32 - 48) as u64;
        assert(body.take(i - from + 1).drop_last() =~= body.take(i - from));
        assert(value(body.take(i - from + 1)) == total * 10 + d);
        if d > max || total > (max - d) / 10 {
            proof {
                if all_digits(body) {
                    lemma_value_grows(body, i - from + 1);
                }
            }
            return None;
        }
        total = total * 10 + d;
        i += 1;
    }
    assert(body.take(body.len() as int) =~= body);
    Some(total)
}

/// Reads a number that is spelled in digits alone and is at most `max`.
pub fn parse_digits(s: &str, max: u64) -> (r: Option<u64>)
    ensures
        match r {
            Some(n) => all_digits(s@) && value(s@) == n && n <= max,
            None => !(all_digits(s@) && value(s@) <= max),
        },
{
    let chars = chars_of(s);
    assert(s@.skip(0) =~= s@);
    digits_from(&chars, 0, max)
}

/// Reads an unsigned number that is at most `max`.
pub fn parse_number(s: &str, max: u64) -> (r: Option<u64>)
    ensures
        match r {
            Some(n) => number(s@, max as nat) == Some(n as nat),
            None => number(s@, max as nat) is None,
        },
{
    let chars = chars_of(s);
    if chars.len() > 0 && chars[0] == '+' {
        digits_from(&chars, 1, max)
    } else {
        assert(s@.skip(0) =~= s@);
        digits_from(&chars, 0, max)
    }
}

/// Reads a signed number.
pub fn parse_integer(s: &str) -> (r: Option<i64>)
    ensures
        match r {
            Some(i) => integer(s@) == Some(i as int),
            None => integer(s@) is None,
        },
{
    let chars = chars_of(s);
    if chars.len() > 0 && chars[0] == '-' {
        match digits_from(&chars, 1, 0x8000_0000_0000_0000) {
            Some(n) => if n == 0x8000_0000_0000_0000 {
                Some(i64::MIN)
            } else {
                Some(-(n as i64))
            },
            None => None,
        }
    } else {
        match parse_number(s, i64::MAX as u64) {
            Some(n) => Some(n as i64),
            None => None,
        }
    }
}

/// A natural number in decimal is digits, and they stand for it.
pub proof fn lemma_digits_read_back(n: nat)
    ensures
        all_digits(digits(n)),
        value(digits(n)) == n,
    decreases n,
{
    reveal_with_fuel(value, 2);
    if n < 10 {
        assert(digits(n).drop_last() =~= Seq::<char>::empty());
        assert(is_digit(digit(n)));
    } else {
        lemma_digits_read_back(n / 10);
        assert(digits(n).drop_last() =~= digits(n / 10));
        assert(is_digit(digit(n % 10)));
    }
}

/// A number written in decimal reads back as itself.
pub proof fn a_written_number_reads_back(i: i64)
    ensures
        integer(decimal(i as int)) == Some(i as int),
{
    if i < 0 {
        lemma_digits_read_back((-i) as nat);
        assert(decimal(i as int).skip(1) =~= digits((-i) as nat));
    } else {
        lemma_digits_read_back(i as nat);
        let s = digits(i as nat);
        assert(is_digit(s[0]));
    }
}

/// An unsigned number written in decimal reads back as itself.
pub proof fn a_written_unsigned_number_reads_back(n: nat, max: nat)
    requires
        n <= max,
    ensures
        number(digits(n), max) == Some(n),
{
    lemma_digits_read_back(n);
    assert(is_digit(digits(n)[0]));
}

// ---------------------------------------------------------------------------
// Case folding, quoting
// ---------------------------------------------------------------------------

/// Whether every character of a text is ASCII.
pub open spec fn is_ascii_text(s: Seq<char>) -> bool {
    forall|i: int| 0 <= i < s.len() ==> #[trigger] s[i] < '\u{80}'
}

/// What `str::to_lowercase` makes of a text that is not all ASCII.
pub uninterp spec fn unicode_lowercased(s: Seq<char>) -> Seq<char>;

/// A text in small letters.
pub open spec fn lowercased(s: Seq<char>) -> Seq<char> {
    if is_ascii_text(s) {
        ascii_lowered(s)
    } else {
        unicode_lowercased(s)
    }
}

/// `str::to_lowercase`: the text in small letters, as Unicode maps them.
///
/// In a text of ASCII characters the capitals become small letters and nothing
/// else changes. What becomes of any other text is only named.
#[verifier::external_body]
pub(crate) fn to_lowercase(s: &str) -> (text: String)
    ensures
        text@ == if is_ascii_text(s@) {
            ascii_lowered(s@)
        } else {
            unicode_lowercased(s@)
        },
{
    s.to_lowercase()
}

/// What `String::from_utf8_lossy` makes of bytes that are not UTF-8.
pub uninterp spec fn patched_utf8(bytes: Seq<u8>) -> Seq<char>;

/// The text that some bytes stand for, with replacements where they are not
/// UTF-8.
pub open spec fn lossy_text(bytes: Seq<u8>) -> Seq<char> {
    if vstd::utf8::valid_utf8(bytes) {
        vstd::utf8::decode_utf8(bytes)
    } else {
        patched_utf8(bytes)
    }
}

/// `String::from_utf8_lossy`: bytes that are UTF-8 give the text they encode.
/// What is put in place of the others is only named.
#[verifier::external_body]
pub(crate) fn from_utf8_lossy(bytes: &[u8]) -> (text: String)
    ensures
        text@ == if vstd::utf8::valid_utf8(bytes@) {
            vstd::utf8::decode_utf8(bytes@)
        } else {
            patched_utf8(bytes@)
        },
{
    String::from_utf8_lossy(bytes).into_owned()
}

/// What `{:?}` writes for a text: the text in double quotes, with escapes.
pub uninterp spec fn debug_text(s: Seq<char>) -> Seq<char>;

/// The `Debug` rendering of a `str`, as `{:?}` in a format string writes it.
/// What it escapes, and how, is only named.
#[verifier::external_body]
pub(crate) fn quoted(s: &str) -> (text: String)
    ensures
        text@ == debug_text(s@),
{
    format!("{s:?}")
}

// ---------------------------------------------------------------------------
// Searching
// ---------------------------------------------------------------------------

/// Whether a text holds another at a given place.
pub open spec fn holds_at(s: Seq<char>, needle: Seq<char>, at: int) -> bool {
    &&& 0 <= at
    &&& at + needle.len() <= s.len()
    &&& s.subrange(at, at + needle.len()) == needle
}

/// Whether a text holds another somewhere.
pub open spec fn holds(s: Seq<char>, needle: Seq<char>) -> bool {
    exists|at: int| holds_at(s, needle, at)
}

/// Whether a string holds another somewhere.
pub fn contains(s: &str, needle: &str) -> (r: bool)
    ensures
        r == holds(s@, needle@),
{
    let hay = chars_of(s);
    let pin = chars_of(needle);
    if pin.len() > hay.len() {
        return false;
    }
    let mut at: usize = 0;
    while at <= hay.len() - pin.len()
        invariant
            pin.len() <= hay.len(),
            at <= hay.len() - pin.len() + 1,
            hay@ == s@,
            pin@ == needle@,
            forall|k: int| 0 <= k < at ==> !holds_at(s@, needle@, k),
        decreases hay.len() + 1 - at,
    {
        let mut i: usize = 0;
        while i < pin.len() && hay[at + i] == pin[i]
            invariant
                i <= pin.len(),
                at + pin.len() <= hay.len(),
                forall|j: int| 0 <= j < i ==> hay@[at + j] == pin@[j],
            decreases pin.len() - i,
        {
            i += 1;
        }
        if i == pin.len() {
            assert(s@.subrange(at as int, at + needle@.len()) =~= needle@);
            assert(holds_at(s@, needle@, at as int));
            return true;
        }
        assert(!holds_at(s@, needle@, at as int)) by {
            if holds_at(s@, needle@, at as int) {
                assert(s@.subrange(at as int, at + needle@.len())[i as int] == needle@[i as int]);
            }
        }
        at += 1;
    }
    false
}

/// Every text holds the empty one.
pub proof fn everything_holds_nothing(s: Seq<char>)
    ensures
        holds(s, Seq::<char>::empty()),
{
    assert(s.subrange(0, 0) =~= Seq::<char>::empty());
    assert(holds_at(s, Seq::<char>::empty(), 0));
}

// ---------------------------------------------------------------------------
// Order
// ---------------------------------------------------------------------------

/// Whether one text comes strictly before another, character by character.
pub open spec fn precedes(a: Seq<char>, b: Seq<char>) -> bool
    decreases a.len(),
{
    if b.len() == 0 {
        false
    } else if a.len() == 0 {
        true
    } else if a[0] != b[0] {
        a[0] < b[0]
    } else {
        precedes(a.skip(1), b.skip(1))
    }
}

/// Whether one string comes strictly before another.
pub fn is_before(a: &str, b: &str) -> (r: bool)
    ensures
        r == precedes(a@, b@),
{
    let left = chars_of(a);
    let right = chars_of(b);
    let mut i: usize = 0;
    assert(left@.skip(0) =~= a@);
    assert(right@.skip(0) =~= b@);
    while i < left.len() && i < right.len()
        invariant
            i <= left.len(),
            i <= right.len(),
            precedes(a@, b@) == precedes(left@.skip(i as int), right@.skip(i as int)),
        decreases left.len() - i,
    {
        if left[i] != right[i] {
            return left[i] < right[i];
        }
        assert(left@.skip(i as int).skip(1) =~= left@.skip(i + 1));
        assert(right@.skip(i as int).skip(1) =~= right@.skip(i + 1));
        i += 1;
    }
    i < right.len()
}

/// The order of texts is a strict one, and total.
pub proof fn the_order_of_texts_is_total(a: Seq<char>, b: Seq<char>)
    ensures
        a == b <==> !precedes(a, b) && !precedes(b, a),
        !(precedes(a, b) && precedes(b, a)),
    decreases a.len(),
{
    if a.len() > 0 && b.len() > 0 && a[0] == b[0] {
        the_order_of_texts_is_total(a.skip(1), b.skip(1));
        if a.skip(1) == b.skip(1) {
            assert(a =~= seq![a[0]] + a.skip(1));
            assert(b =~= seq![b[0]] + b.skip(1));
        }
    } else if a.len() == 0 && b.len() == 0 {
        assert(a =~= b);
    }
}

/// The order of texts carries through.
pub proof fn the_order_of_texts_is_transitive(a: Seq<char>, b: Seq<char>, c: Seq<char>)
    requires
        precedes(a, b),
        precedes(b, c),
    ensures
        precedes(a, c),
    decreases a.len(),
{
    if a.len() > 0 && a[0] == b[0] && b[0] == c[0] {
        the_order_of_texts_is_transitive(a.skip(1), b.skip(1), c.skip(1));
    }
}

// ---------------------------------------------------------------------------
// Lists of texts
// ---------------------------------------------------------------------------

/// The texts of a list of strings.
pub open spec fn texts(strings: Seq<String>) -> Seq<Seq<char>> {
    strings.map_values(|s: String| s@)
}

/// A list of texts with a separator between each two.
pub open spec fn joined(parts: Seq<Seq<char>>, between: Seq<char>) -> Seq<char>
    decreases parts.len(),
{
    if parts.len() == 0 {
        Seq::<char>::empty()
    } else if parts.len() == 1 {
        parts[0]
    } else {
        joined(parts.drop_last(), between) + between + parts.last()
    }
}

/// Joins strings with a separator between each two.
pub fn join(parts: &Vec<String>, between: &str) -> (text: String)
    ensures
        text@ == joined(texts(parts@), between@),
{
    let mut text = String::new();
    let mut i: usize = 0;
    while i < parts.len()
        invariant
            i <= parts.len(),
            text@ == joined(texts(parts@).take(i as int), between@),
        decreases parts.len() - i,
    {
        if i > 0 {
            text.push_str(between);
        }
        text.push_str(parts[i].as_str());
        proof {
            let next = texts(parts@).take(i + 1);
            assert(next.drop_last() =~= texts(parts@).take(i as int));
            assert(next.last() == parts@[i as int]@);
            if i == 0 {
                assert(text@ =~= next[0]);
            }
        }
        i += 1;
    }
    assert(texts(parts@).take(parts.len() as int) =~= texts(parts@));
    text
}

/// That many spaces.
pub open spec fn spaces(n: nat) -> Seq<char> {
    Seq::new(n, |i: int| ' ')
}

/// A text padded with spaces on the right to a width, if it is narrower.
pub open spec fn padded_right(s: Seq<char>, width: int) -> Seq<char> {
    s + spaces(if width > s.len() { (width - s.len()) as nat } else { 0 })
}

/// A text padded with spaces on the left to a width, if it is narrower.
pub open spec fn padded_left(s: Seq<char>, width: int) -> Seq<char> {
    spaces(if width > s.len() { (width - s.len()) as nat } else { 0 }) + s
}

/// How many characters a string has.
pub fn char_count(s: &str) -> (n: usize)
    ensures
        n == s@.len(),
{
    chars_of(s).len()
}

/// Writes that many spaces.
fn blanks(n: usize) -> (text: String)
    ensures
        text@ == spaces(n as nat),
{
    let mut text = String::new();
    let mut i: usize = 0;
    while i < n
        invariant
            i <= n,
            text@ == spaces(i as nat),
        decreases n - i,
    {
        text.push(' ');
        i += 1;
        assert(text@ =~= spaces(i as nat));
    }
    text
}

/// Pads a string with spaces on the right to a width, if it is narrower.
pub fn pad_right(s: &str, width: usize) -> (text: String)
    ensures
        text@ == padded_right(s@, width as int),
{
    let n = char_count(s);
    let mut text = s.to_owned();
    text.push_str(blanks(if width > n { width - n } else { 0 }).as_str());
    text
}

/// Pads a string with spaces on the left to a width, if it is narrower.
pub fn pad_left(s: &str, width: usize) -> (text: String)
    ensures
        text@ == padded_left(s@, width as int),
{
    let n = char_count(s);
    let mut text = blanks(if width > n { width - n } else { 0 });
    text.push_str(s);
    text
}

// ---------------------------------------------------------------------------
// Cutting
// ---------------------------------------------------------------------------

/// Where a character first stands in a text, or the text's length.
pub open spec fn first_index(s: Seq<char>, c: char) -> nat
    decreases s.len(),
{
    if s.len() == 0 || s[0] == c {
        0
    } else {
        1 + first_index(s.skip(1), c)
    }
}

/// What stands before a character's first place, or the whole text.
pub open spec fn before_first(s: Seq<char>, c: char) -> Seq<char> {
    s.take(first_index(s, c) as int)
}

/// What stands after a character's first place.
pub open spec fn after_first(s: Seq<char>, c: char) -> Seq<char> {
    s.skip(first_index(s, c) as int + 1)
}

/// A text cut at every place of a character.
pub open spec fn pieces(s: Seq<char>, c: char) -> Seq<Seq<char>>
    decreases s.len(),
    via pieces_get_shorter
{
    if first_index(s, c) >= s.len() {
        seq![s]
    } else {
        seq![before_first(s, c)] + pieces(after_first(s, c), c)
    }
}

#[via_fn]
proof fn pieces_get_shorter(s: Seq<char>, c: char) {
    lemma_first_index(s, c);
}

/// Where a character first stands, nothing before it is that character.
pub proof fn lemma_first_index(s: Seq<char>, c: char)
    ensures
        first_index(s, c) <= s.len(),
        first_index(s, c) < s.len() ==> s[first_index(s, c) as int] == c,
        forall|i: int| 0 <= i < first_index(s, c) ==> #[trigger] s[i] != c,
    decreases s.len(),
{
    if s.len() > 0 && s[0] != c {
        let rest = s.skip(1);
        lemma_first_index(rest, c);
        assert forall|i: int| 0 <= i < first_index(s, c) implies #[trigger] s[i] != c by {
            if i > 0 {
                assert(rest[i - 1] == s[i]);
            }
        }
    }
}

/// The first place of a character is where it stands and does not before.
pub proof fn lemma_first_index_is(s: Seq<char>, c: char, at: int)
    requires
        0 <= at <= s.len(),
        at < s.len() ==> s[at] == c,
        forall|i: int| 0 <= i < at ==> #[trigger] s[i] != c,
    ensures
        first_index(s, c) == at,
{
    lemma_first_index(s, c);
    if first_index(s, c) < at {
        assert(s[first_index(s, c) as int] != c);
    }
}

/// Where a character first stands among some, from a given place on, or their
/// number.
fn find_from(chars: &Vec<char>, from: usize, c: char) -> (at: usize)
    requires
        from <= chars.len(),
    ensures
        from <= at <= chars.len(),
        at == from + first_index(chars@.skip(from as int), c),
{
    let mut at: usize = from;
    while at < chars.len() && chars[at] != c
        invariant
            from <= at <= chars.len(),
            first_index(chars@.skip(from as int), c) == at - from + first_index(
                chars@.skip(at as int),
                c,
            ),
        decreases chars.len() - at,
    {
        assert(chars@.skip(at as int).skip(1) =~= chars@.skip(at + 1));
        at += 1;
    }
    at
}

/// Cuts a string at the first place of a character, if it stands there.
pub fn split_once(s: &str, c: char) -> (r: Option<(String, String)>)
    ensures
        match r {
            Some((head, tail)) => first_index(s@, c) < s@.len() && head@ == before_first(s@, c)
                && tail@ == after_first(s@, c),
            None => first_index(s@, c) == s@.len(),
        },
{
    let chars = chars_of(s);
    assert(chars@.skip(0) =~= s@);
    let at = find_from(&chars, 0, c);
    if at == chars.len() {
        return None;
    }
    assert(chars@.subrange(0, at as int) =~= before_first(s@, c));
    assert(chars@.subrange(at + 1, chars@.len() as int) =~= after_first(s@, c));
    Some((text_between(&chars, 0, at), text_between(&chars, at + 1, chars.len())))
}

/// Cuts a string at every place of a character.
pub fn split(s: &str, c: char) -> (r: Vec<String>)
    ensures
        texts(r@) == pieces(s@, c),
{
    let chars = chars_of(s);
    let mut out: Vec<String> = Vec::new();
    let mut from: usize = 0;
    assert(chars@.skip(0) =~= s@);
    assert(texts(out@) + pieces(s@, c) =~= pieces(s@, c));
    loop
        invariant_except_break
            from <= chars.len(),
            pieces(s@, c) == texts(out@) + pieces(chars@.skip(from as int), c),
        ensures
            texts(out@) == pieces(s@, c),
        decreases chars.len() - from,
    {
        let at = find_from(&chars, from, c);
        let ghost rest = chars@.skip(from as int);
        let ghost had = texts(out@);
        let piece = text_between(&chars, from, at);
        let ghost cut = piece@;
        assert(cut =~= before_first(rest, c));
        out.push(piece);
        assert(texts(out@) =~= had.push(cut));
        if at == chars.len() {
            assert(cut =~= rest);
            assert(had + seq![rest] =~= had.push(cut));
            break;
        }
        assert(after_first(rest, c) =~= chars@.skip(at + 1));
        assert(had + (seq![cut] + pieces(chars@.skip(at + 1), c)) =~= had.push(cut) + pieces(
            chars@.skip(at + 1),
            c,
        ));
        from = at + 1;
    }
    out
}

/// Whether a text begins with another.
pub open spec fn starts_with(s: Seq<char>, prefix: Seq<char>) -> bool {
    prefix.len() <= s.len() && s.take(prefix.len() as int) == prefix
}

/// What follows a prefix, if the string begins with it.
pub fn strip_prefix(s: &str, prefix: &str) -> (r: Option<String>)
    ensures
        match r {
            Some(rest) => starts_with(s@, prefix@) && rest@ == s@.skip(prefix@.len() as int),
            None => !starts_with(s@, prefix@),
        },
{
    let chars = chars_of(s);
    let start = chars_of(prefix);
    if start.len() > chars.len() {
        return None;
    }
    let mut i: usize = 0;
    while i < start.len()
        invariant
            i <= start.len() <= chars.len(),
            chars@ == s@,
            start@ == prefix@,
            forall|j: int| 0 <= j < i ==> chars@[j] == start@[j],
        decreases start.len() - i,
    {
        if chars[i] != start[i] {
            assert(s@.take(prefix@.len() as int)[i as int] != prefix@[i as int]);
            return None;
        }
        i += 1;
    }
    assert(s@.take(prefix@.len() as int) =~= prefix@);
    assert(chars@.subrange(i as int, chars@.len() as int) =~= s@.skip(prefix@.len() as int));
    Some(text_between(&chars, i, chars.len()))
}

// ---------------------------------------------------------------------------
// Bytes
// ---------------------------------------------------------------------------

/// No character is below the first.
pub proof fn lemma_char_bound(c: char)
    ensures
        '\0' <= c,
{
}

/// The bytes of two texts put together are their bytes put together.
pub proof fn lemma_bytes_of_joined(a: Seq<char>, b: Seq<char>)
    ensures
        vstd::utf8::encode_utf8(a + b) == vstd::utf8::encode_utf8(a) + vstd::utf8::encode_utf8(b),
    decreases a.len(),
{
    if a.len() == 0 {
        assert(a + b =~= b);
        assert(vstd::utf8::encode_utf8(a) + vstd::utf8::encode_utf8(b) =~= vstd::utf8::encode_utf8(
            b,
        ));
    } else {
        let rest = a.drop_first();
        lemma_bytes_of_joined(rest, b);
        assert((a + b).drop_first() =~= rest + b);
        assert(vstd::utf8::encode_utf8(a + b) =~= vstd::utf8::encode_utf8(a)
            + vstd::utf8::encode_utf8(b));
    }
}

// ---------------------------------------------------------------------------
// What the operations mean
// ---------------------------------------------------------------------------

proof fn lemma_trimmed_start(s: Seq<char>) -> (n: int)
    ensures
        0 <= n <= s.len(),
        trimmed_start(s) == s.skip(n),
        forall|i: int| 0 <= i < n ==> is_white_space(#[trigger] s[i]),
        n < s.len() ==> !is_white_space(s[n]),
    decreases s.len(),
{
    if s.len() > 0 && is_white_space(s[0]) {
        let rest = s.skip(1);
        let m = lemma_trimmed_start(rest);
        assert(rest.skip(m) =~= s.skip(m + 1));
        assert forall|i: int| 0 <= i < m + 1 implies is_white_space(#[trigger] s[i]) by {
            if i > 0 {
                assert(rest[i - 1] == s[i]);
            }
        }
        m + 1
    } else {
        assert(s.skip(0) =~= s);
        0
    }
}

proof fn lemma_trimmed_end(s: Seq<char>) -> (n: int)
    ensures
        0 <= n <= s.len(),
        trimmed_end(s) == s.take(n),
        forall|i: int| n <= i < s.len() ==> is_white_space(#[trigger] s[i]),
        n > 0 ==> !is_white_space(s[n - 1]),
    decreases s.len(),
{
    if s.len() > 0 && is_white_space(s.last()) {
        let rest = s.drop_last();
        let m = lemma_trimmed_end(rest);
        assert(rest.take(m) =~= s.take(m));
        assert forall|i: int| m <= i < s.len() implies is_white_space(#[trigger] s[i]) by {
            if i < rest.len() {
                assert(rest[i] == s[i]);
            }
        }
        m
    } else {
        assert(s.take(s.len() as int) =~= s);
        s.len() as int
    }
}

/// Trimming takes white space off both ends of a text and nothing else, and
/// leaves none there. Nothing is left exactly of a text that is all white space.
pub proof fn trimming_takes_white_space_alone(s: Seq<char>)
    ensures
        exists|from: int, to: int|
            0 <= from <= to <= s.len() && trimmed(s) == #[trigger] s.subrange(from, to) && (forall|
                i: int,
            |
                0 <= i < from || to <= i < s.len() ==> is_white_space(#[trigger] s[i])),
        trimmed(s).len() > 0 ==> !is_white_space(trimmed(s)[0]) && !is_white_space(
            trimmed(s).last(),
        ),
        trimmed(s).len() == 0 <==> forall|i: int|
            0 <= i < s.len() ==> is_white_space(#[trigger] s[i]),
        exists|to: int|
            0 <= to <= s.len() && trimmed_end(s) == #[trigger] s.take(to) && (forall|i: int|
                to <= i < s.len() ==> is_white_space(#[trigger] s[i])),
        trimmed_end(s).len() > 0 ==> !is_white_space(trimmed_end(s).last()),
{
    let n = lemma_trimmed_start(s);
    let rest = s.skip(n);
    let m = lemma_trimmed_end(rest);
    let from = n;
    let to = n + m;
    assert(rest.take(m) =~= s.subrange(from, to));
    assert forall|i: int| 0 <= i < from || to <= i < s.len() implies is_white_space(
        #[trigger] s[i],
    ) by {
        if to <= i < s.len() {
            assert(rest[i - n] == s[i]);
        }
    }
    if m > 0 {
        assert(rest[0] == s[n]);
        assert(rest[m - 1] == s[n + m - 1]);
        assert(!is_white_space(s[n]));
    } else if rest.len() > 0 {
        assert(rest[0] == s[n]);
    }
    let k = lemma_trimmed_end(s);
}

/// Among the ASCII characters the white space is the space and the five from the
/// tab to the carriage return.
pub proof fn ascii_white_space(c: char)
    requires
        c < '\u{80}',
    ensures
        is_white_space(c) <==> c == ' ' || c == '\t' || c == '\n' || c == '\u{b}' || c == '\u{c}'
            || c == '\r',
{
}

/// Folding the case of ASCII letters shifts the capitals and leaves every other
/// character alone, one for one.
pub proof fn folding_shifts_the_capitals_alone(s: Seq<char>, i: int)
    requires
        0 <= i < s.len(),
    ensures
        ascii_lowered(s).len() == s.len(),
        s[i] == 'A' ==> ascii_lowered(s)[i] == 'a',
        s[i] == 'Z' ==> ascii_lowered(s)[i] == 'z',
        'A' <= s[i] <= 'Z' ==> ascii_lowered(s)[i] as int == s[i] as int + 32,
        !('A' <= s[i] <= 'Z') ==> ascii_lowered(s)[i] == s[i],
        ascii_uppered(s).len() == s.len(),
        'a' <= s[i] <= 'z' ==> ascii_uppered(s)[i] as int == s[i] as int - 32,
        !('a' <= s[i] <= 'z') ==> ascii_uppered(s)[i] == s[i],
{
}

/// A number is written in decimal: one digit for a number below ten, and for any
/// other the last digit behind what a tenth of it is written as. A negative one
/// has a minus sign in front.
pub proof fn a_number_is_written_in_decimal(n: nat, d: nat)
    requires
        d < 10,
    ensures
        decimal(d as int).len() == 1,
        decimal(d as int)[0] as int == '0' as int + d,
        n > 0 ==> decimal((n * 10 + d) as int) == decimal(n as int) + decimal(d as int),
        n > 0 ==> decimal(-(n as int)) == seq!['-'] + decimal(n as int),
{
    if n > 0 {
        let m = n * 10 + d;
        assert(m / 10 == n && m % 10 == d);
        assert(digits(m) == digits(n).push(digit(d)));
        assert(decimal(d as int) =~= seq![digit(d)]);
        assert(decimal(m as int) =~= decimal(n as int) + decimal(d as int));
    }
}

/// What an integer reads as fits an `i64`.
pub proof fn lemma_integer_fits(s: Seq<char>)
    ensures
        integer(s) matches Some(n) ==> i64::MIN <= n <= i64::MAX,
{
}

/// A number starts with a digit or a minus sign.
pub proof fn lemma_decimal_starts(i: int)
    ensures
        decimal(i).len() > 0,
        decimal(i)[0] == '-' || is_digit(decimal(i)[0]),
{
    if i >= 0 {
        lemma_digits_read_back(i as nat);
        assert(is_digit(digits(i as nat)[0]));
    }
}

/// Texts are ordered by the first character in which they differ, and one that
/// another begins with comes before it.
pub proof fn texts_are_ordered_by_their_first_difference(
    same: Seq<char>,
    a: char,
    b: char,
    x: Seq<char>,
    y: Seq<char>,
)
    ensures
        a < b ==> precedes(same + seq![a] + x, same + seq![b] + y),
        precedes(same, same + seq![a] + x),
    decreases same.len(),
{
    let left = same + seq![a] + x;
    let right = same + seq![b] + y;
    if same.len() > 0 {
        let rest = same.skip(1);
        texts_are_ordered_by_their_first_difference(rest, a, b, x, y);
        assert(left.skip(1) =~= rest + seq![a] + x);
        assert(right.skip(1) =~= rest + seq![b] + y);
    }
}

/// Joining puts the separator between neighbours and nowhere else.
pub proof fn joining_puts_the_separator_between(
    parts: Seq<Seq<char>>,
    more: Seq<char>,
    between: Seq<char>,
)
    ensures
        joined(Seq::<Seq<char>>::empty(), between).len() == 0,
        joined(seq![more], between) == more,
        parts.len() > 0 ==> joined(parts.push(more), between) == joined(parts, between) + between
            + more,
{
    if parts.len() > 0 {
        assert(parts.push(more).drop_last() =~= parts);
    }
}

/// Padding adds spaces up to a width, on one side, and changes nothing else.
pub proof fn padding_adds_spaces(s: Seq<char>, width: int, i: int)
    ensures
        padded_right(s, width).len() == if width > s.len() {
            width
        } else {
            s.len() as int
        },
        padded_left(s, width).len() == padded_right(s, width).len(),
        padded_right(s, width).take(s.len() as int) == s,
        padded_left(s, width).skip(padded_left(s, width).len() - s.len()) == s,
        s.len() <= i < width ==> padded_right(s, width)[i] == ' ',
        0 <= i < width - s.len() ==> padded_left(s, width)[i] == ' ',
{
    assert(padded_right(s, width).take(s.len() as int) =~= s);
    assert(padded_left(s, width).skip(padded_left(s, width).len() - s.len()) =~= s);
}

/// Cutting a text at the first place of a character loses that character alone.
pub proof fn cutting_loses_one_character(s: Seq<char>, c: char)
    ensures
        s.contains(c) ==> s == before_first(s, c) + seq![c] + after_first(s, c),
        !s.contains(c) ==> before_first(s, c) == s,
        !before_first(s, c).contains(c),
{
    lemma_first_index(s, c);
    if s.contains(c) {
        let k = choose|k: int| 0 <= k < s.len() && s[k] == c;
        assert(first_index(s, c) < s.len());
        assert(s =~= before_first(s, c) + seq![c] + after_first(s, c));
    } else {
        if first_index(s, c) < s.len() {
            assert(s.contains(s[first_index(s, c) as int]));
        }
        assert(before_first(s, c) =~= s);
    }
    if before_first(s, c).contains(c) {
        let k = choose|k: int| 0 <= k < before_first(s, c).len() && before_first(s, c)[k] == c;
        assert(s[k] == c);
    }
}

/// The pieces a text is cut into, joined again with what it was cut at, are the
/// text; and none of them holds it.
pub proof fn pieces_join_again(s: Seq<char>, c: char)
    ensures
        joined(pieces(s, c), seq![c]) == s,
        pieces(s, c).len() > 0,
        forall|i: int| 0 <= i < pieces(s, c).len() ==> !(#[trigger] pieces(s, c)[i]).contains(c),
    decreases s.len(),
{
    cutting_loses_one_character(s, c);
    lemma_first_index(s, c);
    if first_index(s, c) >= s.len() {
        assert(before_first(s, c) =~= s);
        assert(joined(seq![s], seq![c]) == s);
    } else {
        assert(s[first_index(s, c) as int] == c);
        let head = before_first(s, c);
        let rest = after_first(s, c);
        pieces_join_again(rest, c);
        lemma_joined_front(head, pieces(rest, c), seq![c]);
        let all = pieces(s, c);
        assert forall|i: int| 0 <= i < all.len() implies !(#[trigger] all[i]).contains(c) by {
            if i > 0 {
                assert(all[i] == pieces(rest, c)[i - 1]);
            }
        }
    }
}

proof fn lemma_joined_front(head: Seq<char>, rest: Seq<Seq<char>>, between: Seq<char>)
    requires
        rest.len() > 0,
    ensures
        joined(seq![head] + rest, between) == head + between + joined(rest, between),
    decreases rest.len(),
{
    let all = seq![head] + rest;
    if rest.len() == 1 {
        assert(all.drop_last() =~= seq![head]);
        assert(joined(seq![head], between) == head);
        assert(all.last() == rest[0]);
    } else {
        assert(all.drop_last() =~= seq![head] + rest.drop_last());
        lemma_joined_front(head, rest.drop_last(), between);
        assert(all.last() == rest.last());
        assert(joined(all, between) =~= head + between + joined(rest, between));
    }
}

/// A text of digits is read digit by digit, whatever number it may be up to; a
/// plus sign in front changes nothing, a minus sign makes it negative, and any
/// other character makes it no number.
pub proof fn a_number_is_read_digit_by_digit(s: Seq<char>, c: char, max: nat, i: int)
    requires
        s.len() > 0,
        forall|k: int| 0 <= k < s.len() ==> '0' <= #[trigger] s[k] <= '9',
    ensures
        '0' <= c <= '9' ==> number(seq![c], 255) == Some((c as int - '0' as int) as nat),
        '0' <= c <= '9' && number(s, max) is Some ==> {
            let n = number(s, max)->0 * 10 + (c as int - '0' as int);
            number(s.push(c), max) == if n <= max {
                Some(n as nat)
            } else {
                None
            }
        },
        !('0' <= c <= '9') ==> number(s.push(c), max) is None,
        number(s, max) matches Some(n) ==> n <= max,
        number(seq!['+'] + s, max) == number(s, max),
        number(seq!['-'] + s, max) is None,
        number(s, i64::MAX as nat) matches Some(n) ==> integer(s) == Some(n as int) && integer(
            seq!['-'] + s,
        ) == Some(-(n as int)),
        number(Seq::empty(), max) is None,
        integer(Seq::empty()) is None,
{
    assert(s[0] != '+' && s[0] != '-');
    assert forall|k: int| 0 <= k < s.len() implies is_digit(#[trigger] s[k]) by {}
    let one = seq![c];
    assert(one.drop_last() =~= Seq::<char>::empty());
    assert(value(one.drop_last()) == 0);
    assert(one.last() == c);
    let more = s.push(c);
    assert(more.drop_last() =~= s);
    assert(more[0] == s[0]);
    assert forall|k: int| 0 <= k < s.len() implies #[trigger] more[k] == s[k] by {}
    if '0' <= c <= '9' {
        assert forall|k: int| 0 <= k < more.len() implies is_digit(#[trigger] more[k]) by {
            if k < s.len() {
                assert(more[k] == s[k]);
            }
        }
        assert(is_digit(one[0]));
        assert(all_digits(one));
    } else {
        assert(!is_digit(more[s.len() as int]));
    }
    let signed = seq!['+'] + s;
    assert(signed.skip(1) =~= s);
    let negative = seq!['-'] + s;
    assert(negative.skip(1) =~= s);
    assert(!is_digit(negative[0]));
}

/// Among the ASCII characters those that print nothing are those below the space
/// and the one behind the tilde.
pub proof fn ascii_controls(c: char)
    requires
        c < '\u{80}',
    ensures
        is_control(c) <==> c < ' ' || c == '\u{7f}',
{
}

/// Beyond ASCII the white space is the next line, the no-break spaces, the Ogham
/// space mark, the eleven spaces from the en quad on, the line and paragraph
/// separators, the mathematical space and the ideographic one; and what prints
/// nothing is the thirty-two characters behind ASCII.
pub proof fn white_space_and_controls_beyond_ascii(c: char)
    requires
        c >= '\u{80}',
    ensures
        is_white_space(c) <==> c as int == 0x85 || c as int == 0xa0 || c as int == 0x1680
            || 0x2000 <= c as int <= 0x200a || c as int == 0x2028 || c as int == 0x2029 || c as int
            == 0x202f || c as int == 0x205f || c as int == 0x3000,
        is_control(c) <==> (c as int) < 0xa0,
{
}

/// Folding the case of a text of ASCII characters shifts its capitals.
pub proof fn an_ascii_text_is_folded_by_its_letters(s: Seq<char>, i: int)
    requires
        forall|k: int| 0 <= k < s.len() ==> #[trigger] s[k] < '\u{80}',
        0 <= i < s.len(),
    ensures
        lowercased(s).len() == s.len(),
        'A' <= s[i] <= 'Z' ==> lowercased(s)[i] as int == s[i] as int + 32,
        !('A' <= s[i] <= 'Z') ==> lowercased(s)[i] == s[i],
{
    folding_shifts_the_capitals_alone(s, i);
}

} // verus!
