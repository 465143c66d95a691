//! Text as sequences of characters: building it, searching it, cutting it up and reading
//! numbers out of it.

use vstd::prelude::*;
use vstd::utf8;

verus! {

/// `String::push`: the character is appended to the end of the string.
pub assume_specification[ String::push ](string: &mut String, character: char)
    ensures
        final(string)@ == old(string)@.push(character),
;

/// What a lossy UTF-8 decoding makes of a byte sequence: the text, with the replacement
/// character wherever the bytes are not UTF-8.
pub uninterp spec fn utf8_lossy(bytes: Seq<u8>) -> Seq<char>;

/// `String::from_utf8_lossy`: the decoded text. Bytes that are UTF-8 decode to the text
/// that they encode.
#[verifier::external_body]
pub(crate) fn from_utf8_lossy(bytes: &[u8]) -> (text: String)
    ensures
        text@ == utf8_lossy(bytes@),
        utf8::valid_utf8(bytes@) ==> text@ == utf8::decode_utf8(bytes@),
{
    String::from_utf8_lossy(bytes).into_owned()
}

/// `std::str::from_utf8`: the text that the bytes encode, if they are UTF-8, and nothing
/// otherwise.
#[verifier::external_body]
pub(crate) fn from_utf8(bytes: &[u8]) -> (text: Option<String>)
    ensures
        text is Some <==> utf8::valid_utf8(bytes@),
        text matches Some(decoded) ==> decoded@ == utf8::decode_utf8(bytes@),
{
    std::str::from_utf8(bytes).ok().map(|text| text.to_owned())
}

/// `prefix` followed by `suffix`.
pub(crate) fn append(prefix: String, suffix: &str) -> (text: String)
    ensures
        text@ == prefix@ + suffix@,
{
    prefix.concat(suffix)
}

/// The characters of a text, one by one.
pub(crate) fn chars_of(text: &str) -> (chars: Vec<char>)
    ensures
        chars@ == text@,
{
    let mut chars: Vec<char> = Vec::new();
    for c in it: text.chars()
        invariant
            it.seq() == text@,
            chars@ == it.seq().take(it.index()),
    {
        chars.push(c);
        assert(chars@ =~= it.seq().take(it.index() + 1));
    }
    assert(chars@ =~= text@);
    chars
}

/// The text made of the characters from `from` up to `to`.
pub(crate) fn text_between(chars: &Vec<char>, from: usize, to: usize) -> (text: String)
    requires
        from <= to <= chars.len(),
    ensures
        text@ == chars@.subrange(from as int, to as int),
{
    let mut text = String::new();
    let mut i: usize = from;
    assert(text@ =~= chars@.subrange(from as int, from as int));
    while i < to
        invariant
            from <= i <= to <= chars.len(),
            text@ == chars@.subrange(from as int, i as int),
        decreases to - i,
    {
        text.push(chars[i]);
        i = i + 1;
        assert(text@ =~= chars@.subrange(from as int, i as int));
    }
    text
}

/// Whether `part` stands in `whole` at `at`.
pub open spec fn stands_at(whole: Seq<char>, part: Seq<char>, at: int) -> bool {
    0 <= at && at + part.len() <= whole.len() && whole.subrange(at, at + part.len()) == part
}

/// Whether `part` stands anywhere in `whole`.
pub open spec fn contains(whole: Seq<char>, part: Seq<char>) -> bool {
    exists|at: int| stands_at(whole, part, at)
}

pub(crate) fn matches_at(whole: &Vec<char>, part: &Vec<char>, at: usize) -> (found: bool)
    requires
        at <= whole.len(),
    ensures
        found == stands_at(whole@, part@, at as int),
{
    if whole.len() - at < part.len() {
        return false;
    }
    let mut i: usize = 0;
    while i < part.len()
        invariant
            i <= part.len(),
            at + part.len() <= whole.len(),
            forall|j: int| 0 <= j < i ==> whole@[at + j] == part@[j],
        decreases part.len() - i,
    {
        if whole[at + i] != part[i] {
            assert(whole@.subrange(at as int, at + part@.len())[i as int] != part@[i as int]);
            return false;
        }
        i = i + 1;
    }
    assert(whole@.subrange(at as int, at + part@.len()) =~= part@);
    true
}

/// The first place at or after `from` where `part` stands in `whole`.
pub(crate) fn find_from(whole: &Vec<char>, part: &Vec<char>, from: usize) -> (place: Option<usize>)
    requires
        from <= whole.len(),
    ensures
        match place {
            Some(at) => from <= at <= whole.len() && stands_at(whole@, part@, at as int) && forall|
                j: int,
            |
                from <= j < at ==> !stands_at(whole@, part@, j),
            None => forall|j: int| from <= j ==> !stands_at(whole@, part@, j),
        },
{
    let mut at: usize = from;
    while at < whole.len()
        invariant
            from <= at <= whole.len(),
            forall|j: int| from <= j < at ==> !stands_at(whole@, part@, j),
        decreases whole.len() - at,
    {
        if matches_at(whole, part, at) {
            return Some(at);
        }
        at = at + 1;
    }
    if matches_at(whole, part, at) {
        return Some(at);
    }
    None
}

/// The lower-case form of an ASCII letter; any other character is its own.
pub open spec fn lower(c: char) -> char {
    if 'A' <= c && c <= 'Z' {
        (c as u8 + 32) as char
    } else {
        c
    }
}

/// A text with its ASCII letters in lower case.
pub open spec fn lowered(text: Seq<char>) -> Seq<char> {
    text.map_values(|c: char| lower(c))
}

fn lower_of(c: char) -> (l: char)
    ensures
        l == lower(c),
{
    if 'A' <= c && c <= 'Z' {
        (c as u8 + 32) as char
    } else {
        c
    }
}

/// The characters of a text with its ASCII letters in lower case.
pub(crate) fn lower_chars(text: &str) -> (chars: Vec<char>)
    ensures
        chars@ == lowered(text@),
{
    let source = chars_of(text);
    let mut chars: Vec<char> = Vec::new();
    let mut i: usize = 0;
    while i < source.len()
        invariant
            i <= source.len(),
            source@ == text@,
            chars@ == lowered(text@).take(i as int),
        decreases source.len() - i,
    {
        chars.push(lower_of(source[i]));
        i = i + 1;
        assert(chars@ =~= lowered(text@).take(i as int));
    }
    assert(chars@ =~= lowered(text@));
    chars
}

/// Whether `part`, given in lower case, stands in `whole` without regard to ASCII case.
pub(crate) fn contains_lowered(whole: &str, part: &str) -> (found: bool)
    ensures
        found == contains(lowered(whole@), part@),
{
    let place = find_from(&lower_chars(whole), &chars_of(part), 0);
    proof {
        if place is None {
            assert(forall|at: int| !stands_at(lowered(whole@), part@, at));
        }
    }
    place.is_some()
}

/// Whether two texts are the same without regard to ASCII case.
pub open spec fn same_ignoring_case(left: Seq<char>, right: Seq<char>) -> bool {
    lowered(left) == lowered(right)
}

pub(crate) fn eq_ignore_ascii_case(left: &str, right: &str) -> (same: bool)
    ensures
        same == same_ignoring_case(left@, right@),
{
    let a = lower_chars(left);
    let b = lower_chars(right);
    let same = a.len() == b.len() && matches_at(&a, &b, 0);
    proof {
        assert(a@.subrange(0, a@.len() as int) =~= a@);
    }
    same
}

/// White space as Unicode defines it.
pub open spec fn is_space(c: char) -> bool {
    ||| '\u{9}' <= c && c <= '\u{d}'
    ||| c == ' '
    ||| c == '\u{85}'
    ||| c == '\u{a0}'
    ||| c == '\u{1680}'
    ||| '\u{2000}' <= c && c <= '\u{200a}'
    ||| c == '\u{2028}'
    ||| c == '\u{2029}'
    ||| c == '\u{202f}'
    ||| c == '\u{205f}'
    ||| c == '\u{3000}'
}

fn is_space_char(c: char) -> (space: bool)
    ensures
        space == is_space(c),
{
    ('\u{9}' <= c && c <= '\u{d}') || c == ' ' || c == '\u{85}' || c == '\u{a0}' || c == '\u{1680}'
        || ('\u{2000}' <= c && c <= '\u{200a}') || c == '\u{2028}' || c == '\u{2029}' || c
        == '\u{202f}' || c == '\u{205f}' || c == '\u{3000}'
}

/// A text without the white space at its two ends.
pub open spec fn trimmed(text: Seq<char>) -> Seq<char>
    decreases text.len(),
{
    if text.len() == 0 {
        text
    } else if is_space(text[0]) {
        trimmed(text.subrange(1, text.len() as int))
    } else if is_space(text.last()) {
        trimmed(text.drop_last())
    } else {
        text
    }
}

proof fn trim_back(text: Seq<char>, end: int)
    requires
        0 < end <= text.len(),
        !is_space(text[0]),
        !is_space(text[end - 1]),
        forall|i: int| end <= i < text.len() ==> is_space(#[trigger] text[i]),
    ensures
        trimmed(text) == text.subrange(0, end),
    decreases text.len(),
{
    if end == text.len() {
        assert(text.subrange(0, end) =~= text);
    } else {
        let shorter = text.drop_last();
        assert(is_space(text[text.len() - 1]));
        trim_back(shorter, end);
        assert(shorter.subrange(0, end) =~= text.subrange(0, end));
    }
}

proof fn trim_both(text: Seq<char>, start: int, end: int)
    requires
        0 <= start <= end <= text.len(),
        forall|i: int| 0 <= i < start ==> is_space(#[trigger] text[i]),
        start < text.len() ==> !is_space(text[start]),
        start == text.len() ==> end == start,
        start < text.len() ==> start < end && !is_space(text[end - 1]),
        forall|i: int| end <= i < text.len() ==> is_space(#[trigger] text[i]),
    ensures
        trimmed(text) == text.subrange(start, end),
    decreases start,
{
    if start == 0 {
        if text.len() > 0 {
            trim_back(text, end);
        } else {
            assert(text.subrange(0, 0) =~= text);
        }
    } else {
        let rest = text.subrange(1, text.len() as int);
        assert(is_space(text[0]));
        trim_both(rest, start - 1, end - 1);
        assert(rest.subrange(start - 1, end - 1) =~= text.subrange(start, end));
    }
}

/// The characters from `from` up to `to` without the white space at their two ends.
pub(crate) fn trim_between(chars: &Vec<char>, from: usize, to: usize) -> (text: String)
    requires
        from <= to <= chars.len(),
    ensures
        text@ == trimmed(chars@.subrange(from as int, to as int)),
{
    let ghost whole = chars@.subrange(from as int, to as int);
    let mut start: usize = from;
    while start < to && is_space_char(chars[start])
        invariant
            from <= start <= to <= chars.len(),
            forall|i: int| from <= i < start ==> is_space(#[trigger] chars@[i]),
        decreases to - start,
    {
        start = start + 1;
    }
    let mut end: usize = to;
    while end > start && is_space_char(chars[end - 1])
        invariant
            from <= start <= end <= to <= chars.len(),
            forall|i: int| end <= i < to ==> is_space(#[trigger] chars@[i]),
        decreases end,
    {
        end = end - 1;
    }
    proof {
        assert(forall|i: int| 0 <= i < whole.len() ==> #[trigger] whole[i] == chars@[from + i]);
        trim_both(whole, start - from, end - from);
        assert(whole.subrange(start - from, end - from) =~= chars@.subrange(
            start as int,
            end as int,
        ));
    }
    text_between(chars, start, end)
}

/// A text without the white space at its two ends.
pub(crate) fn trim(text: &str) -> (shorter: String)
    ensures
        shorter@ == trimmed(text@),
{
    let chars = chars_of(text);
    assert(chars@.subrange(0, chars@.len() as int) =~= text@);
    trim_between(&chars, 0, chars.len())
}

/// The value of a decimal digit.
pub open spec fn digit_value(c: char) -> int {
    c as int - '0' as int
}

pub open spec fn is_digit(c: char) -> bool {
    '0' <= c && c <= '9'
}

/// The number that a run of decimal digits stands for.
pub open spec fn digits_value(digits: Seq<char>) -> nat
    decreases digits.len(),
{
    if digits.len() == 0 {
        0
    } else {
        10 * digits_value(digits.drop_last()) + digit_value(digits.last()) as nat
    }
}

/// A text without a leading plus sign.
pub open spec fn unsigned_part(text: Seq<char>) -> Seq<char> {
    if text.len() > 0 && text[0] == '+' {
        text.subrange(1, text.len() as int)
    } else {
        text
    }
}

/// The unsigned number no greater than `max` that a text stands for: one or more decimal
/// digits, after an optional plus sign.
pub open spec fn number(text: Seq<char>, max: nat) -> Option<nat> {
    let digits = unsigned_part(text);
    if digits.len() > 0 && (forall|i: int| 0 <= i < digits.len() ==> is_digit(#[trigger] digits[i]))
        && digits_value(digits) <= max {
        Some(digits_value(digits))
    } else {
        None
    }
}

proof fn longer_is_no_smaller(digits: Seq<char>, count: int)
    requires
        0 <= count <= digits.len(),
        forall|i: int| 0 <= i < digits.len() ==> is_digit(#[trigger] digits[i]),
    ensures
        digits_value(digits.take(count)) <= digits_value(digits),
    decreases digits.len() - count,
{
    if count < digits.len() {
        longer_is_no_smaller(digits, count + 1);
        let longer = digits.take(count + 1);
        assert(longer.drop_last() =~= digits.take(count));
        assert(is_digit(digits[count]));
        assert(is_digit(longer.last()));
    } else {
        assert(digits.take(count) =~= digits);
    }
}

/// Read an unsigned number no greater than `max`.
pub(crate) fn parse_number(text: &str, max: u64) -> (value: Option<u64>)
    ensures
        match value {
            Some(n) => number(text@, max as nat) == Some(n as nat),
            None => number(text@, max as nat) is None,
        },
{
    let chars = chars_of(text);
    let from: usize = if chars.len() > 0 && chars[0] == '+' {
        1
    } else {
        0
    };
    let ghost digits = unsigned_part(text@);
    proof {
        if from == 0 {
            assert(digits =~= text@.subrange(0, text@.len() as int));
        }
        assert(digits.len() == chars@.len() - from);
        assert(forall|i: int| 0 <= i < digits.len() ==> #[trigger] digits[i] == chars@[from + i]);
    }
    if from == chars.len() {
        return None;
    }
    let mut value: u64 = 0;
    let mut i: usize = from;
    assert(digits.take(0) =~= Seq::<char>::empty());
    while i < chars.len()
        invariant
            from <= i <= chars.len(),
            from <= 1,
            chars@ == text@,
            digits == unsigned_part(text@),
            digits.len() == chars@.len() - from,
            digits.len() > 0,
            forall|j: int| 0 <= j < digits.len() ==> #[trigger] digits[j] == chars@[from + j],
            forall|j: int| 0 <= j < i - from ==> is_digit(#[trigger] digits[j]),
            value == digits_value(digits.take(i - from)),
            value <= max,
        decreases chars.len() - i,
    {
        let c = chars[i];
        if !('0' <= c && c <= '9') {
            assert(!is_digit(digits[i - from]));
            return None;
        }
        let digit: u64 = c as u64 - '0' as u64;
        proof {
            assert(digits[i - from] == c);
            assert(digits.take(i - from + 1).drop_last() =~= digits.take(i - from));
            assert(digits.take(i - from + 1).last() == c);
            assert(digits_value(digits.take(i - from + 1)) == 10 * value + digit);
        }
        if value > max / 10 || max - 10 * value < digit {
            proof {
                if forall|j: int| 0 <= j < digits.len() ==> is_digit(#[trigger] digits[j]) {
                    longer_is_no_smaller(digits, i - from + 1);
                }
            }
            return None;
        }
        value = 10 * value + digit;
        i = i + 1;
    }
    assert(digits.take(digits.len() as int) =~= digits);
    Some(value)
}

/// The decimal digit for `value`.
pub open spec fn digit(value: int) -> char {
    ('0' as int + value) as char
}

/// A number in decimal.
pub open spec fn decimal(value: nat) -> Seq<char>
    decreases value,
{
    if value < 10 {
        seq![digit(value as int)]
    } else {
        decimal(value / 10).push(digit(value as int % 10))
    }
}

/// An integer in decimal, with a minus sign where it is negative.
pub open spec fn signed_decimal(value: int) -> Seq<char> {
    if value < 0 {
        seq!['-'] + decimal((-value) as nat)
    } else {
        decimal(value as nat)
    }
}

/// `prefix` followed by `value` in decimal.
pub(crate) fn append_number(prefix: String, value: u64) -> (text: String)
    ensures
        text@ == prefix@ + decimal(value as nat),
    decreases value,
{
    if value < 10 {
        let mut text = prefix;
        text.push((48u8 + value as u8) as char);
        assert(text@ =~= prefix@ + decimal(value as nat));
        text
    } else {
        let mut text = append_number(prefix, value / 10);
        text.push((48u8 + (value % 10) as u8) as char);
        assert(text@ =~= prefix@ + decimal(value as nat));
        text
    }
}

/// `prefix` followed by `value` in decimal, with a minus sign where it is negative.
pub(crate) fn append_signed(prefix: String, value: i32) -> (text: String)
    ensures
        text@ == prefix@ + signed_decimal(value as int),
{
    if value < 0 {
        let mut text = prefix;
        text.push('-');
        let negated: i64 = -(value as i64);
        let text = append_number(text, negated as u64);
        assert(text@ =~= prefix@ + signed_decimal(value as int));
        text
    } else {
        append_number(prefix, value as u64)
    }
}

/// The upper-case hexadecimal digit for `value`.
pub open spec fn hex_digit(value: int) -> char {
    if value < 10 {
        ('0' as int + value) as char
    } else {
        ('A' as int + value - 10) as char
    }
}

/// The last `count` hexadecimal digits of a number.
pub open spec fn hex_tail(value: nat, count: nat) -> Seq<char>
    decreases count,
{
    if count == 0 {
        Seq::empty()
    } else {
        hex_tail(value / 16, (count - 1) as nat).push(hex_digit(value as int % 16))
    }
}

/// A number in hexadecimal, with eight digits.
pub open spec fn hex8(value: u32) -> Seq<char> {
    hex_tail(value as nat, 8)
}

fn append_hex_tail(prefix: String, value: u32, count: u32) -> (text: String)
    ensures
        text@ == prefix@ + hex_tail(value as nat, count as nat),
    decreases count,
{
    if count == 0 {
        assert(prefix@ =~= prefix@ + hex_tail(value as nat, 0));
        return prefix;
    }
    let mut text = append_hex_tail(prefix, value / 16, count - 1);
    let digit: u8 = (value % 16) as u8;
    text.push(
        if digit < 10 {
            (48u8 + digit) as char
        } else {
            (55u8 + digit) as char
        },
    );
    assert(text@ =~= prefix@ + hex_tail(value as nat, count as nat));
    text
}

/// `prefix` followed by `value` in hexadecimal, with eight digits.
pub(crate) fn append_hex(prefix: String, value: u32) -> (text: String)
    ensures
        text@ == prefix@ + hex8(value),
{
    append_hex_tail(prefix, value, 8)
}

/// Writing a number in decimal and reading it back gives the number.
pub proof fn decimal_reads_back(value: nat)
    ensures
        digits_value(decimal(value)) == value,
        decimal(value).len() > 0,
        forall|i: int| 0 <= i < decimal(value).len() ==> is_digit(#[trigger] decimal(value)[i]),
    decreases value,
{
    if value < 10 {
        assert(decimal(value).drop_last() =~= Seq::<char>::empty());
        assert(digits_value(Seq::<char>::empty()) == 0);
        assert(digits_value(decimal(value)) == value);
    } else {
        decimal_reads_back(value / 10);
        assert(decimal(value).drop_last() =~= decimal(value / 10));
    }
}

} // verus!
