//! Verified helpers on strings and bytes: equality, the byte-wise order of
//! strings, and decimal numbers in both directions.

use vstd::prelude::*;
use vstd::utf8::*;

verus! {

/// `String::push` of std appends one character to the string.
pub assume_specification[ std::string::String::push ](s: &mut std::string::String, c: char)
    ensures
        final(s)@ == old(s)@.push(c),
;

/// Two strings with the same UTF-8 bytes hold the same characters.
pub proof fn lemma_utf8_injective(a: Seq<char>, b: Seq<char>)
    requires
        encode_utf8(a) == encode_utf8(b),
    ensures
        a == b,
{
    encode_utf8_decode_utf8(a);
    encode_utf8_decode_utf8(b);
}

/// Whether two strings hold the same characters.
pub fn str_eq(a: &str, b: &str) -> (equal: bool)
    ensures
        equal == (a@ == b@),
{
    let x = a.as_bytes();
    let y = b.as_bytes();
    if x.len() != y.len() {
        return false;
    }
    let mut i: usize = 0;
    while i < x.len()
        invariant
            i <= x.len(),
            x.len() == y.len(),
            x@ == encode_utf8(a@),
            y@ == encode_utf8(b@),
            forall|j: int| 0 <= j < i ==> x@[j] == y@[j],
        decreases x.len() - i,
    {
        if x[i] != y[i] {
            return false;
        }
        i += 1;
    }
    proof {
        assert(x@ =~= y@);
        lemma_utf8_injective(a@, b@);
    }
    true
}

/// The lexicographic order of byte strings: `a` comes strictly before `b`.
pub open spec fn bytes_lt(a: Seq<u8>, b: Seq<u8>) -> bool
    decreases a.len(),
{
    if b.len() == 0 {
        false
    } else if a.len() == 0 {
        true
    } else if a[0] != b[0] {
        a[0] < b[0]
    } else {
        bytes_lt(a.drop_first(), b.drop_first())
    }
}

/// No byte string comes before itself.
pub proof fn lemma_bytes_lt_irreflexive(a: Seq<u8>)
    ensures
        !bytes_lt(a, a),
    decreases a.len(),
{
    if a.len() > 0 {
        lemma_bytes_lt_irreflexive(a.drop_first());
    }
}

/// Of two different byte strings exactly one comes before the other.
pub proof fn lemma_bytes_lt_total(a: Seq<u8>, b: Seq<u8>)
    ensures
        a != b ==> (bytes_lt(a, b) <==> !bytes_lt(b, a)),
        a == b ==> !bytes_lt(a, b) && !bytes_lt(b, a),
    decreases a.len(),
{
    if a == b {
        lemma_bytes_lt_irreflexive(a);
    } else if a.len() > 0 && b.len() > 0 && a[0] == b[0] {
        lemma_bytes_lt_total(a.drop_first(), b.drop_first());
        if a.drop_first() == b.drop_first() {
            assert(a =~= seq![a[0]] + a.drop_first());
            assert(b =~= seq![b[0]] + b.drop_first());
        }
    } else if a.len() == 0 && b.len() == 0 {
        assert(a =~= b);
    }
}

/// The order of byte strings is transitive.
pub proof fn lemma_bytes_lt_transitive(a: Seq<u8>, b: Seq<u8>, c: Seq<u8>)
    requires
        bytes_lt(a, b),
        bytes_lt(b, c),
    ensures
        bytes_lt(a, c),
    decreases a.len(),
{
    if a.len() > 0 && a[0] == b[0] && b[0] == c[0] {
        lemma_bytes_lt_transitive(a.drop_first(), b.drop_first(), c.drop_first());
    }
}

/// Whether `a` comes strictly before `b` in the lexicographic order of bytes.
pub fn bytes_less(a: &[u8], b: &[u8]) -> (less: bool)
    ensures
        less == bytes_lt(a@, b@),
{
    let mut i: usize = 0;
    assert(a@.skip(0) =~= a@ && b@.skip(0) =~= b@);
    loop
        invariant
            i <= a.len(),
            i <= b.len(),
            bytes_lt(a@, b@) == bytes_lt(a@.skip(i as int), b@.skip(i as int)),
        decreases a.len() - i,
    {
        if i == b.len() {
            return false;
        }
        if i == a.len() {
            return true;
        }
        if a[i] != b[i] {
            return a[i] < b[i];
        }
        assert(a@.skip(i as int).drop_first() =~= a@.skip(i + 1));
        assert(b@.skip(i as int).drop_first() =~= b@.skip(i + 1));
        i += 1;
    }
}

/// The order of strings by their UTF-8 bytes.
pub open spec fn str_lt(a: Seq<char>, b: Seq<char>) -> bool {
    bytes_lt(encode_utf8(a), encode_utf8(b))
}

/// Whether `a` comes strictly before `b` by their UTF-8 bytes.
pub fn str_less(a: &str, b: &str) -> (less: bool)
    ensures
        less == str_lt(a@, b@),
{
    bytes_less(a.as_bytes(), b.as_bytes())
}

/// Of two different strings exactly one comes before the other, and no string
/// comes before itself.
pub proof fn lemma_str_lt_total(a: Seq<char>, b: Seq<char>)
    ensures
        a != b ==> (str_lt(a, b) <==> !str_lt(b, a)),
        a == b ==> !str_lt(a, b) && !str_lt(b, a),
{
    lemma_bytes_lt_total(encode_utf8(a), encode_utf8(b));
    if encode_utf8(a) == encode_utf8(b) {
        lemma_utf8_injective(a, b);
    }
}

/// The order of strings is transitive.
pub proof fn lemma_str_lt_transitive(a: Seq<char>, b: Seq<char>, c: Seq<char>)
    requires
        str_lt(a, b),
        str_lt(b, c),
    ensures
        str_lt(a, c),
{
    lemma_bytes_lt_transitive(encode_utf8(a), encode_utf8(b), encode_utf8(c));
}

/// The character of one decimal digit.
pub open spec fn digit_char(d: int) -> char {
    (d + 48) as u8 as char
}

/// A natural number in decimal, without leading zeros.
pub open spec fn decimal_nat(n: nat) -> Seq<char>
    decreases n,
{
    if n < 10 {
        seq![digit_char(n as int)]
    } else {
        decimal_nat(n / 10).push(digit_char((n % 10) as int))
    }
}

/// An integer in decimal, with a minus sign where it is negative.
pub open spec fn decimal_text(n: int) -> Seq<char> {
    if n < 0 {
        seq!['-'] + decimal_nat((-n) as nat)
    } else {
        decimal_nat(n as nat)
    }
}

/// Appends a natural number in decimal.
pub fn push_decimal(out: &mut String, n: u64)
    ensures
        final(out)@ == old(out)@ + decimal_nat(n as nat),
    decreases n,
{
    if n >= 10 {
        push_decimal(out, n / 10);
    }
    let digit: u8 = (n % 10) as u8;
    out.push((digit + 48) as char);
    assert(out@ =~= old(out)@ + decimal_nat(n as nat));
}

/// An integer as decimal text.
pub fn decimal(n: i64) -> (text: String)
    ensures
        text@ == decimal_text(n as int),
{
    let mut out = String::new();
    if n < 0 {
        out.push('-');
        let magnitude: u64 = if n == i64::MIN {
            9223372036854775808u64
        } else {
            (-n) as u64
        };
        push_decimal(&mut out, magnitude);
        assert(out@ =~= decimal_text(n as int));
    } else {
        push_decimal(&mut out, n as u64);
        assert(out@ =~= decimal_text(n as int));
    }
    out
}

/// Whether a character is a decimal digit.
pub open spec fn is_digit(c: char) -> bool {
    '0' <= c <= '9'
}

/// The number that a string of decimal digits stands for.
pub open spec fn digits_value(digits: Seq<char>) -> nat
    decreases digits.len(),
{
    if digits.len() == 0 {
        0
    } else {
        (digits_value(digits.drop_last()) * 10 + (digits.last() as u32 - 48)) as nat
    }
}

/// Whether every character of a string is a decimal digit.
pub open spec fn all_digits(digits: Seq<char>) -> bool {
    forall|i: int| 0 <= i < digits.len() ==> is_digit(#[trigger] digits[i])
}

/// Whether a text starts with a sign.
pub open spec fn has_sign(text: Seq<char>) -> bool {
    text.len() > 0 && (text[0] == '-' || text[0] == '+')
}

/// A text without the sign that it may start with.
pub open spec fn unsigned_part(text: Seq<char>) -> Seq<char> {
    if has_sign(text) {
        text.drop_first()
    } else {
        text
    }
}

/// The integer that a text stands for, as `str::parse::<i64>` reads it: an
/// optional sign, then at least one decimal digit and nothing else, the whole
/// within the range of `i64`.
pub open spec fn parsed_i64(text: Seq<char>) -> Option<i64> {
    let digits = unsigned_part(text);
    let magnitude = digits_value(digits) as int;
    let value = if has_sign(text) && text[0] == '-' {
        -magnitude
    } else {
        magnitude
    };
    if digits.len() == 0 || !all_digits(digits) {
        None
    } else if i64::MIN <= value <= i64::MAX {
        Some(value as i64)
    } else {
        None
    }
}

/// A string of digits stands for at least as much as each of its prefixes.
pub proof fn lemma_digits_value_prefix(digits: Seq<char>, k: int)
    requires
        0 <= k <= digits.len(),
        all_digits(digits),
    ensures
        digits_value(digits.take(k)) <= digits_value(digits),
    decreases digits.len() - k,
{
    if k == digits.len() {
        assert(digits.take(k) =~= digits);
    } else {
        lemma_digits_value_prefix(digits, k + 1);
        assert(digits.take(k + 1).drop_last() =~= digits.take(k));
        assert(is_digit(digits[k]));
    }
}

/// Reads a decimal integer as `str::parse::<i64>` does.
pub fn parse_i64(text: &str) -> (value: Option<i64>)
    ensures
        value == parsed_i64(text@),
{
    let mut negative = false;
    let mut signed = false;
    let mut any_digit = false;
    let mut magnitude: u64 = 0;
    let limit: u64 = 9223372036854775808u64;
    let ghost digits = unsigned_part(text@);
    let ghost mut count: int = 0;
    for c in it: text.chars()
        invariant
            it.seq() == text@,
            digits == unsigned_part(text@),
            limit == 9223372036854775808u64,
            magnitude <= limit,
            signed == (it.index() > 0 && has_sign(text@)),
            negative == (it.index() > 0 && text@[0] == '-'),
            count == it.index() - (if signed { 1int } else { 0int }),
            any_digit == (count > 0),
            0 <= count <= digits.len(),
            all_digits(digits.take(count)),
            magnitude == digits_value(digits.take(count)),
    {
        if !any_digit && !signed && (c == '-' || c == '+') {
            signed = true;
            negative = c == '-';
            assert(digits.take(0) =~= Seq::<char>::empty());
        } else {
            assert(c == digits[count]);
            assert(digits.take(count + 1).drop_last() =~= digits.take(count));
            if !(c >= '0' && c <= '9') {
                assert(!is_digit(digits[count]));
                return None;
            }
            let digit: u64 = (c as u32 - 48) as u64;
            if magnitude > (limit - digit) / 10 {
                proof {
                    assert(digits_value(digits.take(count + 1)) == magnitude * 10 + digit);
                    if all_digits(digits) {
                        lemma_digits_value_prefix(digits, count + 1);
                    }
                }
                return None;
            }
            magnitude = magnitude * 10 + digit;
            any_digit = true;
            proof {
                count = count + 1;
            }
        }
    }
    assert(digits.take(count) =~= digits);
    if !any_digit {
        None
    } else if negative {
        if magnitude == limit {
            Some(i64::MIN)
        } else {
            Some(-(magnitude as i64))
        }
    } else if magnitude == limit {
        None
    } else {
        Some(magnitude as i64)
    }
}

/// How many decimal digits a text holds.
pub open spec fn digit_count(text: Seq<char>) -> nat
    decreases text.len(),
{
    if text.len() == 0 {
        0
    } else {
        digit_count(text.drop_last()) + if is_digit(text.last()) {
            1nat
        } else {
            0nat
        }
    }
}

/// How often a character occurs in a text.
pub open spec fn occurrences(text: Seq<char>, wanted: char) -> nat
    decreases text.len(),
{
    if text.len() == 0 {
        0
    } else {
        occurrences(text.drop_last(), wanted) + if text.last() == wanted {
            1nat
        } else {
            0nat
        }
    }
}

/// A text holds at least as many digits as each of its prefixes.
pub proof fn lemma_digit_count_prefix(text: Seq<char>, k: int)
    requires
        0 <= k <= text.len(),
    ensures
        digit_count(text.take(k)) <= digit_count(text),
    decreases text.len() - k,
{
    if k == text.len() {
        assert(text.take(k) =~= text);
    } else {
        lemma_digit_count_prefix(text, k + 1);
        assert(text.take(k + 1).drop_last() =~= text.take(k));
    }
}

/// A character occurs in a text at least as often as in each of its
/// prefixes.
pub proof fn lemma_occurrences_prefix(text: Seq<char>, wanted: char, k: int)
    requires
        0 <= k <= text.len(),
    ensures
        occurrences(text.take(k), wanted) <= occurrences(text, wanted),
    decreases text.len() - k,
{
    if k == text.len() {
        assert(text.take(k) =~= text);
    } else {
        lemma_occurrences_prefix(text, wanted, k + 1);
        assert(text.take(k + 1).drop_last() =~= text.take(k));
    }
}

/// Whether a text holds no more than `limit` decimal digits.
pub fn has_at_most_digits(text: &str, limit: usize) -> (within: bool)
    ensures
        within == (digit_count(text@) <= limit),
{
    let mut seen: usize = 0;
    for c in it: text.chars()
        invariant
            it.seq() == text@,
            seen == digit_count(text@.take(it.index())),
            seen <= limit,
    {
        assert(text@.take(it.index() + 1).drop_last() =~= text@.take(it.index()));
        if c >= '0' && c <= '9' {
            if seen == limit {
                proof {
                    lemma_digit_count_prefix(text@, it.index() + 1);
                }
                return false;
            }
            seen += 1;
        }
    }
    assert(text@.take(text@.len() as int) =~= text@);
    true
}

/// Whether a character occurs in a text no more than `limit` times.
pub fn occurs_at_most(text: &str, wanted: char, limit: usize) -> (within: bool)
    ensures
        within == (occurrences(text@, wanted) <= limit),
{
    let mut seen: usize = 0;
    for c in it: text.chars()
        invariant
            it.seq() == text@,
            seen == occurrences(text@.take(it.index()), wanted),
            seen <= limit,
    {
        assert(text@.take(it.index() + 1).drop_last() =~= text@.take(it.index()));
        if c == wanted {
            if seen == limit {
                proof {
                    lemma_occurrences_prefix(text@, wanted, it.index() + 1);
                }
                return false;
            }
            seen += 1;
        }
    }
    assert(text@.take(text@.len() as int) =~= text@);
    true
}

/// A text with a space in place of each plus sign.
pub open spec fn plus_as_space(text: Seq<char>) -> Seq<char> {
    Seq::new(text.len(), |i: int| if text[i] == '+' { ' ' } else { text[i] })
}

/// Puts a space in place of each plus sign.
pub fn plus_to_space(text: &str) -> (spaced: String)
    ensures
        spaced@ == plus_as_space(text@),
{
    let mut spaced = String::new();
    for c in it: text.chars()
        invariant
            it.seq() == text@,
            spaced@ == plus_as_space(text@.take(it.index())),
    {
        if c == '+' {
            spaced.push(' ');
        } else {
            spaced.push(c);
        }
        assert(spaced@ =~= plus_as_space(text@.take(it.index() + 1)));
    }
    assert(text@.take(text@.len() as int) =~= text@);
    spaced
}

} // verus!
