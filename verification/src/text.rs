//! Numbers and words in text: decimal and hexadecimal digits, integer
//! parsing, and white space.

use vstd::prelude::*;
use vstd::string::StringExecFns;

verus! {

/// `String::push` of the standard library: appends one character at the end.
pub assume_specification[ String::push ](text: &mut String, c: char)
    ensures
        final(text)@ == old(text)@.push(c),
;

/// The digit of `d`, lower case from ten on.
pub open spec fn digit(d: int) -> char {
    if d < 10 {
        (0x30 + d) as char
    } else {
        (0x57 + d) as char
    }
}

/// `n` in decimal, without leading zeros.
pub open spec fn decimal(n: nat) -> Seq<char>
    decreases n,
{
    if n < 10 {
        seq![digit(n as int)]
    } else {
        decimal(n / 10).push(digit(n as int % 10))
    }
}

/// `n` in decimal, with a sign where it is negative.
pub open spec fn signed_decimal(n: int) -> Seq<char> {
    if n < 0 {
        seq!['-'] + decimal((-n) as nat)
    } else {
        decimal(n as nat)
    }
}

/// The hexadecimal digits of `n`, padded with zeros to `width`.
pub open spec fn hex(n: nat, width: nat) -> Seq<char>
    decreases width,
{
    if width == 0 {
        Seq::empty()
    } else {
        hex(n / 16, (width - 1) as nat).push(digit(n as int % 16))
    }
}

fn digit_char(d: u8) -> (c: char)
    requires
        d < 16,
    ensures
        c == digit(d as int),
{
    if d < 10 {
        (0x30 + d) as char
    } else {
        (0x57 + d) as char
    }
}

/// Append `n` in decimal.
pub fn push_decimal(text: &mut String, n: u64)
    ensures
        final(text)@ == old(text)@ + decimal(n as nat),
    decreases n,
{
    if n < 10 {
        text.push(digit_char(n as u8));
        assert(text@ =~= old(text)@ + decimal(n as nat));
    } else {
        push_decimal(text, n / 10);
        text.push(digit_char((n % 10) as u8));
        assert(text@ =~= old(text)@ + decimal(n as nat));
    }
}

/// Append `n` in decimal, with a sign where it is negative.
pub fn push_signed(text: &mut String, n: i32)
    ensures
        final(text)@ == old(text)@ + signed_decimal(n as int),
{
    if n < 0 {
        text.push('-');
        push_decimal(text, (-(n as i64)) as u64);
        assert(text@ =~= old(text)@ + signed_decimal(n as int));
    } else {
        push_decimal(text, n as u64);
    }
}

/// Append `width` hexadecimal digits of `n`.
pub fn push_hex(text: &mut String, n: u128, width: u8)
    ensures
        final(text)@ == old(text)@ + hex(n as nat, width as nat),
    decreases width,
{
    if width == 0 {
        assert(text@ =~= old(text)@ + hex(n as nat, 0));
    } else {
        push_hex(text, n / 16, width - 1);
        text.push(digit_char((n % 16) as u8));
        assert(text@ =~= old(text)@ + hex(n as nat, width as nat));
    }
}

/// A number in decimal is made of digits.
pub proof fn lemma_decimal_digits(n: nat)
    ensures
        decimal(n).len() >= 1,
        forall|i: int| 0 <= i < decimal(n).len() ==> is_digit(#[trigger] decimal(n)[i]),
    decreases n,
{
    if n >= 10 {
        lemma_decimal_digits(n / 10);
    }
}

/// Two numbers have different texts in decimal.
pub proof fn lemma_decimal_injective(a: nat, b: nat)
    requires
        decimal(a) == decimal(b),
    ensures
        a == b,
    decreases a,
{
    lemma_decimal_digits(a / 10);
    lemma_decimal_digits(b / 10);
    assert(decimal(a).last() == digit(a as int % 10));
    assert(decimal(b).last() == digit(b as int % 10));
    if a >= 10 && b >= 10 {
        assert(decimal(a).drop_last() =~= decimal(a / 10));
        assert(decimal(b).drop_last() =~= decimal(b / 10));
        lemma_decimal_injective(a / 10, b / 10);
    }
}

/// The value of `width` hexadecimal digits determines the digits, and the
/// digits determine the value.
pub proof fn lemma_hex_injective(a: nat, b: nat, width: nat)
    requires
        hex(a, width) == hex(b, width),
        a < vstd::arithmetic::power::pow(16, width),
        b < vstd::arithmetic::power::pow(16, width),
    ensures
        a == b,
    decreases width,
{
    vstd::arithmetic::power::lemma_pow0(16);
    if width > 0 {
        let rest = (width - 1) as nat;
        lemma_hex_len(a / 16, rest);
        lemma_hex_len(b / 16, rest);
        assert(hex(a, width).last() == digit(a as int % 16));
        assert(hex(b, width).last() == digit(b as int % 16));
        assert(hex(a, width).drop_last() =~= hex(a / 16, rest));
        assert(hex(b, width).drop_last() =~= hex(b / 16, rest));
        assert(vstd::arithmetic::power::pow(16, width) == 16 * vstd::arithmetic::power::pow(
            16,
            rest,
        )) by {
            reveal(vstd::arithmetic::power::pow);
        }
        lemma_hex_injective(a / 16, b / 16, rest);
    }
}

pub proof fn lemma_hex_len(n: nat, width: nat)
    ensures
        hex(n, width).len() == width,
    decreases width,
{
    if width > 0 {
        lemma_hex_len(n / 16, (width - 1) as nat);
    }
}

/// The Unicode `White_Space` property.
pub open spec fn white_space(c: char) -> bool {
    let u = c as int;
    0x09 <= u <= 0x0d || u == 0x20 || u == 0x85 || u == 0xa0 || u == 0x1680 || 0x2000 <= u <= 0x200a
        || u == 0x2028 || u == 0x2029 || u == 0x202f || u == 0x205f || u == 0x3000
}

pub fn is_white_space(c: char) -> (result: bool)
    ensures
        result == white_space(c),
{
    let u: u32 = c as u32;
    (0x09 <= u && u <= 0x0d) || u == 0x20 || u == 0x85 || u == 0xa0 || u == 0x1680 || (0x2000 <= u
        && u <= 0x200a) || u == 0x2028 || u == 0x2029 || u == 0x202f || u == 0x205f || u == 0x3000
}

/// `s` without the white space at its ends.
pub open spec fn trimmed(s: Seq<char>) -> Seq<char>
    decreases s.len(),
{
    if s.len() > 0 && white_space(s.first()) {
        trimmed(s.skip(1))
    } else if s.len() > 0 && white_space(s.last()) {
        trimmed(s.drop_last())
    } else {
        s
    }
}

/// The characters of a text.
pub fn chars_of(text: &str) -> (chars: Vec<char>)
    ensures
        chars@ == text@,
{
    let mut chars: Vec<char> = Vec::new();
    for c in iter: text.chars()
        invariant
            chars@ == iter.seq().take(iter.index() as int),
            iter.seq() == text@,
    {
        chars.push(c);
    }
    chars
}

/// The text of some characters.
pub fn text_of(chars: &Vec<char>) -> (text: String)
    ensures
        text@ == chars@,
{
    let mut text = String::new();
    let mut i: usize = 0;
    while i < chars.len()
        invariant
            i <= chars.len(),
            text@ == chars@.take(i as int),
        decreases chars.len() - i,
    {
        text.push(chars[i]);
        i = i + 1;
        assert(text@ =~= chars@.take(i as int));
    }
    assert(chars@.take(i as int) =~= chars@);
    text
}

/// Drop the white space at both ends.
pub fn trim(chars: &Vec<char>) -> (result: Vec<char>)
    ensures
        result@ == trimmed(chars@),
{
    let mut start: usize = 0;
    let mut end: usize = chars.len();
    assert(chars@.subrange(0, end as int) =~= chars@);
    while start < end && is_white_space(chars[start])
        invariant
            start <= end <= chars.len(),
            trimmed(chars@) == trimmed(chars@.subrange(start as int, end as int)),
        ensures
            start <= end <= chars.len(),
            trimmed(chars@) == trimmed(chars@.subrange(start as int, end as int)),
            start < end ==> !white_space(chars@[start as int]),
        decreases end - start,
    {
        let ghost s = chars@.subrange(start as int, end as int);
        start = start + 1;
        assert(s.skip(1) =~= chars@.subrange(start as int, end as int));
    }
    while start < end && is_white_space(chars[end - 1])
        invariant
            start <= end <= chars.len(),
            trimmed(chars@) == trimmed(chars@.subrange(start as int, end as int)),
            start < end ==> !white_space(chars@[start as int]),
        ensures
            start <= end <= chars.len(),
            trimmed(chars@) == trimmed(chars@.subrange(start as int, end as int)),
            start < end ==> !white_space(chars@[start as int]) && !white_space(chars@[end - 1]),
        decreases end - start,
    {
        let ghost s = chars@.subrange(start as int, end as int);
        end = end - 1;
        assert(s.drop_last() =~= chars@.subrange(start as int, end as int));
    }
    let ghost s = chars@.subrange(start as int, end as int);
    assert(trimmed(s) == s);
    let mut result: Vec<char> = Vec::new();
    let mut i: usize = start;
    while i < end
        invariant
            start <= i <= end <= chars.len(),
            result@ == chars@.subrange(start as int, i as int),
        decreases end - i,
    {
        result.push(chars[i]);
        i = i + 1;
        assert(result@ =~= chars@.subrange(start as int, i as int));
    }
    assert(result@ =~= s);
    result
}

/// Whether `c` is an ASCII digit.
pub open spec fn is_digit(c: char) -> bool {
    0x30 <= c as int <= 0x39
}

/// The number that a run of digits stands for.
pub open spec fn digits_value(s: Seq<char>) -> nat
    decreases s.len(),
{
    if s.len() == 0 {
        0
    } else {
        10 * digits_value(s.drop_last()) + (s.last() as int - 0x30) as nat
    }
}

/// At least one character, and digits only.
pub open spec fn all_digits(s: Seq<char>) -> bool {
    s.len() > 0 && forall|i: int| 0 <= i < s.len() ==> is_digit(#[trigger] s[i])
}

/// An unsigned number of at most `max`: digits, with an optional plus sign.
pub open spec fn parsed_unsigned(s: Seq<char>, max: nat) -> Option<nat> {
    let body = if s.len() > 0 && s[0] == '+' {
        s.skip(1)
    } else {
        s
    };
    if all_digits(body) && digits_value(body) <= max {
        Some(digits_value(body))
    } else {
        None
    }
}

/// A signed 32-bit number: digits, with an optional sign.
pub open spec fn parsed_i32(s: Seq<char>) -> Option<int> {
    let negative = s.len() > 0 && s[0] == '-';
    let body = if s.len() > 0 && (s[0] == '+' || s[0] == '-') {
        s.skip(1)
    } else {
        s
    };
    let value = if negative {
        -(digits_value(body) as int)
    } else {
        digits_value(body) as int
    };
    if all_digits(body) && i32::MIN <= value <= i32::MAX {
        Some(value)
    } else {
        None
    }
}

proof fn lemma_digits_monotone(s: Seq<char>, i: int)
    requires
        0 <= i <= s.len(),
        forall|j: int| 0 <= j < s.len() ==> is_digit(#[trigger] s[j]),
    ensures
        digits_value(s.take(i)) <= digits_value(s),
    decreases s.len() - i,
{
    if i < s.len() {
        assert(s.take(i + 1).drop_last() =~= s.take(i));
        lemma_digits_monotone(s, i + 1);
    } else {
        assert(s.take(i) =~= s);
    }
}

/// The code point of a character.
pub fn code_point(c: char) -> (code: u32)
    ensures
        code == c as int,
{
    c as u32
}

/// The digits from `from` on, as a number of at most `max`.
fn parse_digits(chars: &Vec<char>, from: usize, max: u64) -> (result: Option<u64>)
    requires
        from <= chars.len(),
    ensures
        match result {
            Some(value) => all_digits(chars@.skip(from as int)) && digits_value(
                chars@.skip(from as int),
            ) == value && value <= max,
            None => !all_digits(chars@.skip(from as int)) || digits_value(chars@.skip(from as int))
                > max,
        },
{
    let ghost body = chars@.skip(from as int);
    if from == chars.len() {
        return None;
    }
    let mut value: u64 = 0;
    let mut i: usize = from;
    assert(body.take(0) =~= Seq::<char>::empty());
    while i < chars.len()
        invariant
            from <= i <= chars.len(),
            body == chars@.skip(from as int),
            forall|j: int| 0 <= j < i - from ==> is_digit(#[trigger] body[j]),
            digits_value(body.take(i - from)) == value,
            value <= max,
        decreases chars.len() - i,
    {
        let ch: char = chars[i];
        let c: u32 = code_point(ch);
        assert(body[i - from] == ch);
        if c < 0x30 || c > 0x39 {
            return None;
        }
        assert(body.take(i - from + 1).drop_last() =~= body.take(i - from));
        assert(body.take(i - from + 1).last() == body[i - from]);
        let wide: u128 = value as u128 * 10 + (c - 0x30) as u128;
        assert(wide == digits_value(body.take(i - from + 1)));
        if wide > max as u128 {
            proof {
                if all_digits(body) {
                    lemma_digits_monotone(body, i - from + 1);
                }
            }
            return None;
        }
        value = wide as u64;
        i = i + 1;
    }
    assert(body.take(i - from) =~= body);
    Some(value)
}

/// Parse an unsigned machine word.
pub fn parse_usize(chars: &Vec<char>) -> (result: Option<usize>)
    ensures
        result matches Some(value) ==> parsed_unsigned(chars@, usize::MAX as nat) == Some(
            value as nat,
        ),
        result is None ==> parsed_unsigned(chars@, usize::MAX as nat) is None,
{
    let from: usize = if chars.len() > 0 && chars[0] == '+' {
        1
    } else {
        0
    };
    assert(chars@.skip(0) =~= chars@);
    match parse_digits(chars, from, usize::MAX as u64) {
        Some(value) => Some(value as usize),
        None => None,
    }
}

/// Parse a signed 32-bit number.
pub fn parse_i32(chars: &Vec<char>) -> (result: Option<i32>)
    ensures
        result matches Some(value) ==> parsed_i32(chars@) == Some(value as int),
        result is None ==> parsed_i32(chars@) is None,
{
    assert(chars@.skip(0) =~= chars@);
    let negative = chars.len() > 0 && chars[0] == '-';
    let from: usize = if chars.len() > 0 && (chars[0] == '+' || chars[0] == '-') {
        1
    } else {
        0
    };
    let max: u64 = if negative {
        0x8000_0000
    } else {
        0x7fff_ffff
    };
    match parse_digits(chars, from, max) {
        Some(value) => if negative {
            Some((-(value as i64)) as i32)
        } else {
            Some(value as i32)
        },
        None => None,
    }
}

/// Whether two texts are the same.
pub fn same(a: &Vec<char>, b: &str) -> (result: bool)
    ensures
        result == (a@ == b@),
{
    let other = chars_of(b);
    if a.len() != other.len() {
        return false;
    }
    let mut i: usize = 0;
    while i < a.len()
        invariant
            i <= a.len(),
            a.len() == other.len(),
            other@ == b@,
            forall|j: int| 0 <= j < i ==> a@[j] == other@[j],
        decreases a.len() - i,
    {
        if a[i] != other[i] {
            assert(a@[i as int] != b@[i as int]);
            return false;
        }
        i = i + 1;
    }
    assert(a@ =~= other@);
    true
}

/// A new string with the characters of `text`.
pub fn owned(text: &str) -> (result: String)
    ensures
        result@ == text@,
{
    let mut result = String::new();
    result.append(text);
    assert(result@ =~= text@);
    result
}

/// The pieces of `s` between separators: one more than there are separators.
pub open spec fn pieces(s: Seq<char>, separator: char) -> Seq<Seq<char>>
    decreases s.len(),
{
    if s.len() == 0 {
        seq![Seq::<char>::empty()]
    } else {
        let before = pieces(s.drop_last(), separator);
        if s.last() == separator {
            before.push(Seq::empty())
        } else {
            before.update(before.len() - 1, before.last().push(s.last()))
        }
    }
}

proof fn lemma_pieces_nonempty(s: Seq<char>, separator: char)
    ensures
        pieces(s, separator).len() >= 1,
    decreases s.len(),
{
    if s.len() > 0 {
        lemma_pieces_nonempty(s.drop_last(), separator);
    }
}

/// The characters of each of some texts.
pub open spec fn texts(list: Seq<Vec<char>>) -> Seq<Seq<char>> {
    list.map_values(|text: Vec<char>| text@)
}

/// Split a text at every separator.
pub fn split(chars: &Vec<char>, separator: char) -> (list: Vec<Vec<char>>)
    ensures
        texts(list@) == pieces(chars@, separator),
{
    let mut done: Vec<Vec<char>> = Vec::new();
    let mut last: Vec<char> = Vec::new();
    let mut i: usize = 0;
    assert(texts(done@).push(last@) =~= pieces(chars@.take(0), separator));
    while i < chars.len()
        invariant
            i <= chars.len(),
            texts(done@).push(last@) == pieces(chars@.take(i as int), separator),
        decreases chars.len() - i,
    {
        let c: char = chars[i];
        let ghost before = texts(done@).push(last@);
        assert(chars@.take(i + 1).drop_last() =~= chars@.take(i as int));
        assert(chars@.take(i + 1).last() == c);
        assert(before.last() == last@);
        if c == separator {
            let ghost finished = last@;
            let mut swapped: Vec<char> = Vec::new();
            std::mem::swap(&mut swapped, &mut last);
            done.push(swapped);
            assert(texts(done@).push(last@) =~= before.push(Seq::empty()));
        } else {
            last.push(c);
            assert(texts(done@).push(last@) =~= before.update(
                before.len() - 1,
                before.last().push(c),
            ));
        }
        i = i + 1;
    }
    assert(chars@.take(i as int) =~= chars@);
    let ghost result = texts(done@).push(last@);
    done.push(last);
    assert(texts(done@) =~= result);
    done
}

/// Where a character first stands in a text, or the text's length.
pub open spec fn first_index(s: Seq<char>, c: char) -> int
    decreases s.len(),
{
    if s.len() == 0 || s[0] == c {
        0
    } else {
        1 + first_index(s.skip(1), c)
    }
}

pub proof fn lemma_first_index(s: Seq<char>, c: char)
    ensures
        0 <= first_index(s, c) <= s.len(),
        first_index(s, c) < s.len() ==> s[first_index(s, c)] == c,
        forall|i: int| 0 <= i < first_index(s, c) ==> s[i] != c,
    decreases s.len(),
{
    if s.len() > 0 && s[0] != c {
        lemma_first_index(s.skip(1), c);
        assert forall|i: int| 0 <= i < first_index(s, c) implies s[i] != c by {
            if i > 0 {
                assert(s[i] == s.skip(1)[i - 1]);
            }
        }
    }
}

/// Find where a character first stands.
pub fn find(chars: &Vec<char>, c: char) -> (index: usize)
    ensures
        index == first_index(chars@, c),
        index <= chars.len(),
{
    let mut i: usize = 0;
    assert(chars@.skip(0) =~= chars@);
    while i < chars.len() && chars[i] != c
        invariant
            i <= chars.len(),
            first_index(chars@, c) == i + first_index(chars@.skip(i as int), c),
        ensures
            i <= chars.len(),
            first_index(chars@, c) == i + first_index(chars@.skip(i as int), c),
            i < chars.len() ==> chars@[i as int] == c,
        decreases chars.len() - i,
    {
        assert(chars@.skip(i as int).skip(1) =~= chars@.skip(i + 1));
        i = i + 1;
    }
    i
}

/// A part of a text.
pub fn slice(chars: &Vec<char>, from: usize, to: usize) -> (part: Vec<char>)
    requires
        from <= to <= chars.len(),
    ensures
        part@ == chars@.subrange(from as int, to as int),
{
    let mut part: Vec<char> = Vec::new();
    let mut i: usize = from;
    while i < to
        invariant
            from <= i <= to <= chars.len(),
            part@ == chars@.subrange(from as int, i as int),
        decreases to - i,
    {
        part.push(chars[i]);
        i = i + 1;
        assert(part@ =~= chars@.subrange(from as int, i as int));
    }
    part
}

/// The value of an environment variable.
#[derive(Clone, Debug, PartialEq, Eq)]
pub enum EnvironmentValue {
    Unset,
    /// Set to something that is no Unicode text.
    NotUnicode,
    Text(String),
}

} // verus!
