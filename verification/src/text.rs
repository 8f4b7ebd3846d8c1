//! Text helpers: decimal numbers, comparison, trimming and case.

use vstd::prelude::*;
use vstd::utf8::*;

verus! {

/// The character of one decimal digit.
pub open spec fn digit_char(d: nat) -> char {
    (48 + d) as char
}

/// The decimal digits of `n`, most significant first, without leading zeros.
pub open spec fn decimal(n: nat) -> Seq<char>
    decreases n,
{
    if n < 10 {
        seq![digit_char(n)]
    } else {
        decimal(n / 10).push(digit_char(n % 10))
    }
}

/// Whether `c` is one of `0` to `9`.
pub open spec fn is_digit(c: char) -> bool {
    48 <= c as int <= 57
}

/// The number that a sequence of digits writes in base ten.
pub open spec fn digits_value(s: Seq<char>) -> int
    decreases s.len(),
{
    if s.len() == 0 {
        0
    } else {
        10 * digits_value(s.drop_last()) + (s.last() as int - 48)
    }
}

/// What remains of `s` behind one optional leading plus sign.
pub open spec fn without_plus(s: Seq<char>) -> Seq<char> {
    if s.len() > 0 && s[0] == '+' {
        s.drop_first()
    } else {
        s
    }
}

/// Whether `s` holds at least one character and digits only.
pub open spec fn all_digits(s: Seq<char>) -> bool {
    s.len() > 0 && forall|i: int| 0 <= i < s.len() ==> #[trigger] is_digit(s[i])
}

/// The unsigned 64-bit number that `s` writes: an optional plus sign, then digits only.
pub open spec fn parsed_u64(s: Seq<char>) -> Option<u64> {
    let body = without_plus(s);
    if all_digits(body) && digits_value(body) <= u64::MAX {
        Some(digits_value(body) as u64)
    } else {
        None
    }
}

/// The text of one decimal digit.
fn digit_text(d: u64) -> (r: &'static str)
    requires
        d < 10,
    ensures
        r@ == seq![digit_char(d as nat)],
{
    proof {
        reveal_strlit("0");
        reveal_strlit("1");
        reveal_strlit("2");
        reveal_strlit("3");
        reveal_strlit("4");
        reveal_strlit("5");
        reveal_strlit("6");
        reveal_strlit("7");
        reveal_strlit("8");
        reveal_strlit("9");
    }
    match d {
        0 => "0",
        1 => "1",
        2 => "2",
        3 => "3",
        4 => "4",
        5 => "5",
        6 => "6",
        7 => "7",
        8 => "8",
        _ => "9",
    }
}

/// Writes `n` in base ten.
pub fn decimal_text(n: u64) -> (r: String)
    ensures
        r@ == decimal(n as nat),
    decreases n,
{
    if n < 10 {
        String::from_str(digit_text(n))
    } else {
        let mut text = decimal_text(n / 10);
        text.append(digit_text(n % 10));
        text
    }
}

/// The characters of `text`.
pub fn characters(text: &str) -> (r: Vec<char>)
    ensures
        r@ == text@,
{
    let mut chars: Vec<char> = Vec::new();
    for c in iter: text.chars()
        invariant
            iter.seq() == text@,
            chars@ == text@.take(iter.index() as int),
    {
        proof {
            assert(text@.take(iter.index() as int).push(c) =~= text@.take(iter.index() + 1));
        }
        chars.push(c);
    }
    assert(text@.take(text@.len() as int) =~= text@);
    chars
}

/// A longer run of digits never writes a smaller number.
proof fn lemma_digits_value_grows(s: Seq<char>, n: int)
    requires
        0 <= n <= s.len(),
        forall|i: int| 0 <= i < s.len() ==> #[trigger] is_digit(s[i]),
    ensures
        0 <= digits_value(s.take(n)) <= digits_value(s),
    decreases s.len(),
{
    if n == s.len() {
        assert(s.take(n) =~= s);
        if n > 0 {
            assert(is_digit(s[n - 1]));
            lemma_digits_value_grows(s.drop_last(), n - 1);
        }
    } else {
        assert(is_digit(s[s.len() - 1]));
        lemma_digits_value_grows(s.drop_last(), n);
        assert(s.drop_last().take(n) =~= s.take(n));
    }
}

/// Reads an unsigned 64-bit number, as `str::parse::<u64>` does.
pub fn parse_u64(text: &str) -> (r: Option<u64>)
    ensures
        r == parsed_u64(text@),
{
    let chars = characters(text);
    let start: usize = if chars.len() > 0 && chars[0] == '+' { 1 } else { 0 };
    let ghost body = without_plus(text@);
    assert(body =~= text@.skip(start as int));
    if start == chars.len() {
        return None;
    }
    let mut value: u64 = 0;
    let mut i: usize = start;
    while i < chars.len()
        invariant
            chars@ == text@,
            start <= i <= chars.len(),
            body == text@.skip(start as int),
            forall|k: int| 0 <= k < i - start ==> #[trigger] is_digit(body[k]),
            value == digits_value(body.take(i - start)),
            body == without_plus(text@),
        decreases chars.len() - i,
    {
        let c = chars[i];
        let ghost n = i - start;
        assert(body[n] == c);
        if !('0' <= c && c <= '9') {
            assert(!is_digit(body[n]));
            return None;
        }
        let digit: u64 = (c as u32 - 48) as u64;
        proof {
            assert(is_digit(body[n]));
            assert(body.take(n + 1).drop_last() =~= body.take(n));
            assert(digits_value(body.take(n + 1)) == 10 * value + digit);
            if all_digits(body) {
                lemma_digits_value_grows(body, n + 1);
            }
        }
        value = match value.checked_mul(10) {
            Some(tens) => match tens.checked_add(digit) {
                Some(next) => next,
                None => return None,
            },
            None => return None,
        };
        i += 1;
    }
    assert(body.take(body.len() as int) =~= body);
    Some(value)
}

/// Digits written in base ten read back as the number that they write.
proof fn lemma_decimal_digits(n: nat)
    ensures
        all_digits(decimal(n)),
        digits_value(decimal(n)) == n,
    decreases n,
{
    let s = decimal(n);
    if n < 10 {
        reveal_with_fuel(digits_value, 2);
        assert(s.drop_last() =~= Seq::<char>::empty());
        assert(s.last() == digit_char(n));
    } else {
        lemma_decimal_digits(n / 10);
        let rest = decimal(n / 10);
        assert(s.drop_last() =~= rest);
        assert(s.last() == digit_char(n % 10));
        assert forall|i: int| 0 <= i < s.len() implies #[trigger] is_digit(s[i]) by {
            if i < rest.len() {
                assert(s[i] == rest[i]);
                assert(is_digit(rest[i]));
            }
        }
    }
}

/// Writing a number in base ten and reading the text gives the number back.
pub proof fn law_decimal_round_trip(n: u64)
    ensures
        parsed_u64(decimal(n as nat)) == Some(n),
{
    lemma_decimal_digits(n as nat);
    let s = decimal(n as nat);
    assert(is_digit(s[0]));
    assert(without_plus(s) == s);
}

/// Two numbers with the same decimal text are the same number.
pub proof fn law_decimal_injective(a: nat, b: nat)
    requires
        decimal(a) == decimal(b),
    ensures
        a == b,
{
    lemma_decimal_digits(a);
    lemma_decimal_digits(b);
}

/// Whether two texts hold the same characters.
pub fn same_text(a: &str, b: &str) -> (r: bool)
    ensures
        r == (a@ == b@),
{
    let left = a.as_bytes();
    let right = b.as_bytes();
    proof {
        encode_utf8_decode_utf8(a@);
        encode_utf8_decode_utf8(b@);
    }
    if left.len() != right.len() {
        return false;
    }
    let mut i: usize = 0;
    while i < left.len()
        invariant
            left@.len() == right@.len(),
            left@ == encode_utf8(a@),
            right@ == encode_utf8(b@),
            i <= left.len(),
            forall|k: int| 0 <= k < i ==> left@[k] == right@[k],
        decreases left.len() - i,
    {
        if left[i] != right[i] {
            return false;
        }
        i += 1;
    }
    assert(left@ =~= right@);
    true
}

/// Whether a character is whitespace: the Unicode property `White_Space`, as
/// `char::is_whitespace` decides it.
pub uninterp spec fn white_space(c: char) -> bool;

/// Whether an ASCII character is whitespace: tab, line feed, vertical tab, form feed,
/// carriage return or space.
pub open spec fn ascii_white_space(c: char) -> bool {
    9 <= c as int <= 13 || c as int == 32
}

/// Calls `char::is_whitespace`. Trusted: the answer depends on the character alone, and on an
/// ASCII character it is that of `ascii_white_space`.
#[verifier::external_body]
fn is_whitespace(c: char) -> (r: bool)
    ensures
        r == white_space(c),
        (c as int) < 128 ==> r == ascii_white_space(c),
{
    c.is_whitespace()
}

/// `s` without the leading characters that satisfy `space`.
pub open spec fn trimmed_start(s: Seq<char>, space: spec_fn(char) -> bool) -> Seq<char>
    decreases s.len(),
{
    if s.len() > 0 && space(s[0]) {
        trimmed_start(s.drop_first(), space)
    } else {
        s
    }
}

/// `s` without the trailing characters that satisfy `space`.
pub open spec fn trimmed_end(s: Seq<char>, space: spec_fn(char) -> bool) -> Seq<char>
    decreases s.len(),
{
    if s.len() > 0 && space(s.last()) {
        trimmed_end(s.drop_last(), space)
    } else {
        s
    }
}

/// `s` without the leading and trailing characters that satisfy `space`.
pub open spec fn trimmed_by(s: Seq<char>, space: spec_fn(char) -> bool) -> Seq<char> {
    trimmed_end(trimmed_start(s, space), space)
}

/// `s` without leading and trailing whitespace.
pub open spec fn trimmed(s: Seq<char>) -> Seq<char> {
    trimmed_by(s, |c: char| white_space(c))
}

/// `s` without leading and trailing ASCII whitespace.
pub open spec fn ascii_trimmed(s: Seq<char>) -> Seq<char> {
    trimmed_by(s, |c: char| ascii_white_space(c))
}

/// Removes leading and trailing whitespace.
pub fn trim(text: &str) -> (r: &str)
    ensures
        r@ == trimmed(text@),
        is_ascii_chars(text@) ==> r@ == ascii_trimmed(text@) && is_ascii_chars(r@),
{
    let chars = characters(text);
    let ghost space = |c: char| white_space(c);
    let ghost ascii = |c: char| ascii_white_space(c);
    let mut from: usize = 0;
    assert(text@.skip(0) =~= text@);
    while from < chars.len() && is_whitespace(chars[from])
        invariant
            chars@ == text@,
            from <= chars.len(),
            space == (|c: char| white_space(c)),
            ascii == (|c: char| ascii_white_space(c)),
            trimmed_start(text@, space) == trimmed_start(text@.skip(from as int), space),
            is_ascii_chars(text@) ==> trimmed_start(text@, ascii) == trimmed_start(
                text@.skip(from as int),
                ascii,
            ),
        ensures
            from <= chars.len(),
            trimmed_start(text@, space) == text@.skip(from as int),
            is_ascii_chars(text@) ==> trimmed_start(text@, ascii) == text@.skip(from as int),
        decreases chars.len() - from,
    {
        assert(text@.skip(from as int).drop_first() =~= text@.skip(from + 1));
        from += 1;
    }
    let mut to: usize = chars.len();
    assert(text@.subrange(from as int, to as int) =~= text@.skip(from as int));
    while from < to && is_whitespace(chars[to - 1])
        invariant
            chars@ == text@,
            from <= to <= chars.len(),
            space == (|c: char| white_space(c)),
            ascii == (|c: char| ascii_white_space(c)),
            trimmed(text@) == trimmed_end(text@.subrange(from as int, to as int), space),
            is_ascii_chars(text@) ==> ascii_trimmed(text@) == trimmed_end(
                text@.subrange(from as int, to as int),
                ascii,
            ),
        ensures
            from <= to <= chars.len(),
            trimmed(text@) == text@.subrange(from as int, to as int),
            is_ascii_chars(text@) ==> ascii_trimmed(text@) == text@.subrange(
                from as int,
                to as int,
            ),
        decreases to,
    {
        assert(text@.subrange(from as int, to as int).drop_last() =~= text@.subrange(
            from as int,
            to - 1,
        ));
        to -= 1;
    }
    text.substring_char(from, to)
}

/// The text in upper case, by the Unicode mappings that `str::to_uppercase` follows.
pub uninterp spec fn uppercase(s: Seq<char>) -> Seq<char>;

/// The text in lower case, by the Unicode mappings that `str::to_lowercase` follows.
pub uninterp spec fn lowercase(s: Seq<char>) -> Seq<char>;

/// An ASCII character in upper case.
pub open spec fn ascii_upper(c: char) -> char {
    if 97 <= c as int <= 122 {
        (c as int - 32) as char
    } else {
        c
    }
}

/// An ASCII character in lower case.
pub open spec fn ascii_lower(c: char) -> char {
    if 65 <= c as int <= 90 {
        (c as int + 32) as char
    } else {
        c
    }
}

/// Calls `str::to_uppercase`. Trusted: the result depends on the text alone, and in an ASCII
/// text exactly the letters `a` to `z` change, each to its capital.
#[verifier::external_body]
pub(crate) fn to_uppercase(text: &str) -> (r: String)
    ensures
        r@ == uppercase(text@),
        is_ascii_chars(text@) ==> r@ == text@.map_values(|c: char| ascii_upper(c)),
{
    text.to_uppercase()
}

/// Calls `str::to_lowercase`. Trusted: the result depends on the text alone, and in an ASCII
/// text exactly the letters `A` to `Z` change, each to its small letter.
#[verifier::external_body]
pub(crate) fn to_lowercase(text: &str) -> (r: String)
    ensures
        r@ == lowercase(text@),
        is_ascii_chars(text@) ==> r@ == text@.map_values(|c: char| ascii_lower(c)),
{
    text.to_lowercase()
}

/// Reading digit by digit. A text of one digit reads as that digit. A digit more multiplies what
/// was read by ten and adds the digit, unless that is more than 64 bits hold. A text that does
/// not read as a number reads as none with a character more either, but for the single plus sign.
/// A character that is no digit spoils the text, and so does a plus sign but at the start.
pub proof fn law_reading_digit_by_digit(s: Seq<char>, c: char)
    ensures
        parsed_u64(Seq::empty()) is None,
        parsed_u64(seq![c]) == (if 48 <= c as int <= 57 {
            Some((c as int - 48) as u64)
        } else {
            None
        }),
        s.len() > 0 && !(s.len() == 1 && s[0] == '+') ==> parsed_u64(s.push(c)) == (match parsed_u64(
            s,
        ) {
            Some(n) => if 48 <= c as int <= 57 && 10 * n + (c as int - 48) <= u64::MAX {
                Some((10 * n + (c as int - 48)) as u64)
            } else {
                None
            },
            None => None,
        }),
        parsed_u64(seq!['+', c]) == parsed_u64(seq![c]),
{
    reveal_with_fuel(digits_value, 3);
    let one = seq![c];
    assert(one.drop_last() =~= Seq::<char>::empty());
    assert(all_digits(one) <==> is_digit(c)) by {
        assert(one[0] == c);
    }
    assert(without_plus(one) =~= if c == '+' {
        Seq::<char>::empty()
    } else {
        one
    });
    let signed = seq!['+', c];
    assert(signed.drop_first() =~= one);
    if c == '+' {
        assert(!is_digit(c));
    }
    if s.len() > 0 && !(s.len() == 1 && s[0] == '+') {
        let longer = s.push(c);
        let body = without_plus(s);
        assert(without_plus(longer) =~= body.push(c));
        let more = body.push(c);
        assert(more.drop_last() =~= body);
        assert(more.last() == c);
        assert(digits_value(more) == 10 * digits_value(body) + (c as int - 48));
        if all_digits(more) {
            assert forall|i: int| 0 <= i < body.len() implies #[trigger] is_digit(body[i]) by {
                assert(more[i] == body[i]);
                assert(is_digit(more[i]));
            }
            assert(is_digit(more[body.len() as int]));
        }
        if all_digits(body) && is_digit(c) {
            assert forall|i: int| 0 <= i < more.len() implies #[trigger] is_digit(more[i]) by {
                if i < body.len() {
                    assert(more[i] == body[i]);
                }
            }
        }
        if all_digits(body) {
            lemma_digits_value_grows(body, 0);
        }
    }
}

/// The digits of a number below ten are that one; those of any other number are those of its
/// tens, and its ones behind.
pub proof fn law_decimal_digit_by_digit(n: nat, d: nat)
    requires
        d < 10,
    ensures
        decimal(d) == seq![(48 + d) as char],
        n > 0 ==> decimal(10 * n + d) == decimal(n).push((48 + d) as char),
{
    if n > 0 {
        assert((10 * n + d) / 10 == n);
        assert((10 * n + d) % 10 == d);
    }
}

/// What is trimmed off at the start.
proof fn lemma_trimmed_start_is_the_rest(s: Seq<char>, space: spec_fn(char) -> bool) -> (from: int)
    ensures
        0 <= from <= s.len(),
        trimmed_start(s, space) == s.skip(from),
        forall|i: int| 0 <= i < from ==> space(#[trigger] s[i]),
        from < s.len() ==> !space(s[from]),
    decreases s.len(),
{
    if s.len() > 0 && space(s[0]) {
        let rest = s.drop_first();
        let inner = lemma_trimmed_start_is_the_rest(rest, space);
        assert forall|i: int| 0 <= i < inner + 1 implies space(#[trigger] s[i]) by {
            if i > 0 {
                assert(rest[i - 1] == s[i]);
            }
        }
        assert(rest.skip(inner) =~= s.skip(inner + 1));
        if inner < rest.len() {
            assert(rest[inner] == s[inner + 1]);
        }
        inner + 1
    } else {
        assert(s.skip(0) =~= s);
        0
    }
}

/// What is trimmed off at the end.
proof fn lemma_trimmed_end_is_the_rest(s: Seq<char>, space: spec_fn(char) -> bool) -> (to: int)
    ensures
        0 <= to <= s.len(),
        trimmed_end(s, space) == s.take(to),
        forall|i: int| to <= i < s.len() ==> space(#[trigger] s[i]),
        to > 0 ==> !space(s[to - 1]),
    decreases s.len(),
{
    if s.len() > 0 && space(s.last()) {
        let rest = s.drop_last();
        let to = lemma_trimmed_end_is_the_rest(rest, space);
        assert forall|i: int| to <= i < s.len() implies space(#[trigger] s[i]) by {
            if i < rest.len() {
                assert(rest[i] == s[i]);
            }
        }
        assert(rest.take(to) =~= s.take(to));
        if to > 0 {
            assert(rest[to - 1] == s[to - 1]);
        }
        to
    } else {
        assert(s.take(s.len() as int) =~= s);
        s.len() as int
    }
}

/// Whether a stretch of a text is what is left when the spaces around it are taken off: all
/// before it and behind it is space, and it neither begins nor ends with one.
pub open spec fn is_core(s: Seq<char>, from: int, to: int, space: spec_fn(char) -> bool) -> bool {
    &&& 0 <= from <= to <= s.len()
    &&& forall|i: int| 0 <= i < from ==> space(#[trigger] s[i])
    &&& forall|i: int| to <= i < s.len() ==> space(#[trigger] s[i])
    &&& from < to ==> !space(s[from]) && !space(s[to - 1])
}

/// Whatever stretch is left when the spaces around a text are taken off: trimming gives it.
pub proof fn law_trimming_leaves_the_core(
    s: Seq<char>,
    from: int,
    to: int,
    space: spec_fn(char) -> bool,
)
    requires
        is_core(s, from, to, space),
    ensures
        trimmed_by(s, space) == s.subrange(from, to),
{
    let start = lemma_trimmed_start_is_the_rest(s, space);
    let rest = s.skip(start);
    let end = lemma_trimmed_end_is_the_rest(rest, space);
    if from < to {
        assert(start == from) by {
            if start < from {
                assert(space(s[start]));
            }
            if start > from {
                assert(space(s[from]));
            }
        }
        assert(start + end == to) by {
            if start + end < to {
                assert(rest[to - 1 - start] == s[to - 1]);
                assert(space(rest[to - 1 - start]));
            }
            if start + end > to {
                assert(rest[end - 1] == s[start + end - 1]);
                assert(space(s[start + end - 1]));
            }
        }
        assert(rest.take(end) =~= s.subrange(from, to));
    } else {
        assert(forall|i: int| 0 <= i < s.len() ==> space(#[trigger] s[i]));
        assert(start == s.len());
        assert(rest.take(end) =~= s.subrange(from, to));
    }
}

/// Trimming takes off what is white space, in an ASCII text the characters 9 to 13 and 32, and
/// nothing else.
pub proof fn law_white_space_is_trimmed(s: Seq<char>, from: int, to: int)
    ensures
        is_core(s, from, to, |c: char| white_space(c)) ==> trimmed(s) == s.subrange(from, to),
        is_core(s, from, to, |c: char| 9 <= c as int <= 13 || c as int == 32) ==> ascii_trimmed(s)
            == s.subrange(from, to),
{
    let literal = |c: char| 9 <= c as int <= 13 || c as int == 32;
    assert(literal =~= |c: char| ascii_white_space(c));
    if is_core(s, from, to, |c: char| white_space(c)) {
        law_trimming_leaves_the_core(s, from, to, |c: char| white_space(c));
    }
    if is_core(s, from, to, literal) {
        law_trimming_leaves_the_core(s, from, to, literal);
    }
}

} // verus!
