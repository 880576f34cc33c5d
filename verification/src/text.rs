//! Text: the calls into the standard library, and numbers in decimal.

use vstd::arithmetic::div_mod::lemma_div_denominator;
use vstd::arithmetic::power::{lemma_pow0, lemma_pow1, lemma_pow_positive, pow};
use vstd::prelude::*;
use vstd::utf8::{encode_utf8, is_ascii_chars, is_ascii_chars_encode_utf8};

verus! {

/// `needle` stands somewhere in `hay`.
pub open spec fn contains_text(hay: Seq<char>, needle: Seq<char>) -> bool {
    exists|i: int| #[trigger] stands_at(hay, needle, i)
}

/// `needle` stands in `hay` from character `i` on.
pub open spec fn stands_at(hay: Seq<char>, needle: Seq<char>, i: int) -> bool {
    0 <= i && i + needle.len() <= hay.len() && hay.subrange(i, i + needle.len()) == needle
}

/// `a` comes before `b` in dictionary order of code points.
pub open spec fn text_less(a: Seq<char>, b: Seq<char>) -> bool
    decreases a.len(),
{
    if b.len() == 0 {
        false
    } else if a.len() == 0 {
        true
    } else if a[0] != b[0] {
        (a[0] as int) < (b[0] as int)
    } else {
        text_less(a.drop_first(), b.drop_first())
    }
}

/// What `str::to_lowercase` makes of a text.
pub uninterp spec fn lowercase(text: Seq<char>) -> Seq<char>;

/// `str::contains` with a text to look for: whether that text is a part of the
/// other one.
#[verifier::external_body]
pub(crate) fn contains(hay: &str, needle: &str) -> (r: bool)
    ensures
        r == contains_text(hay@, needle@),
{
    hay.contains(needle)
}

/// `str::to_lowercase`: the text in lower case, a function of the text alone.
#[verifier::external_body]
pub(crate) fn to_lowercase(text: &str) -> (r: String)
    ensures
        r@ == lowercase(text@),
{
    text.to_lowercase()
}

/// `str::lt`: texts are ordered by their bytes, which orders them by their code
/// points.
#[verifier::external_body]
pub(crate) fn less(a: &str, b: &str) -> (r: bool)
    ensures
        r == text_less(a@, b@),
{
    a < b
}

/// `String::push`: the character is appended.
#[verifier::external_body]
pub(crate) fn push(text: &mut String, c: char)
    ensures
        final(text)@ == old(text)@.push(c),
{
    text.push(c)
}

/// Nothing comes before itself.
pub proof fn lemma_less_irreflexive(a: Seq<char>)
    ensures
        !text_less(a, a),
    decreases a.len(),
{
    if a.len() > 0 {
        lemma_less_irreflexive(a.drop_first());
    }
}

pub proof fn lemma_less_transitive(a: Seq<char>, b: Seq<char>, c: Seq<char>)
    requires
        text_less(a, b),
        text_less(b, c),
    ensures
        text_less(a, c),
    decreases a.len(),
{
    if a.len() > 0 && b.len() > 0 && c.len() > 0 {
        if a[0] == b[0] && b[0] == c[0] {
            lemma_less_transitive(a.drop_first(), b.drop_first(), c.drop_first());
        }
    }
}

/// Of two different texts one comes before the other.
pub proof fn lemma_less_total(a: Seq<char>, b: Seq<char>)
    ensures
        text_less(a, b) || text_less(b, a) || a == b,
    decreases a.len(),
{
    if a.len() > 0 && b.len() > 0 && a[0] == b[0] {
        lemma_less_total(a.drop_first(), b.drop_first());
        if a.drop_first() == b.drop_first() {
            assert(a =~= seq![a[0]] + a.drop_first());
            assert(b =~= seq![b[0]] + b.drop_first());
        }
    } else if a.len() == 0 && b.len() == 0 {
        assert(a =~= b);
    }
}

/// The decimal digit `d`.
pub open spec fn digit(d: nat) -> char {
    (48 + d) as char
}

/// `n` in decimal.
pub open spec fn decimal(n: nat) -> Seq<char>
    decreases n,
{
    if n < 10 {
        seq![digit(n)]
    } else {
        decimal(n / 10).push(digit(n % 10))
    }
}

/// The byte of a decimal digit.
pub open spec fn is_digit(b: u8) -> bool {
    48 <= b <= 57
}

/// The number that decimal digits spell.
pub open spec fn digits_value(digits: Seq<u8>) -> nat
    decreases digits.len(),
{
    if digits.len() == 0 {
        0
    } else {
        10 * digits_value(digits.drop_last()) + (digits.last() - 48) as nat
    }
}

/// The digits of a number that may have a plus sign in front.
pub open spec fn unsigned_digits(bytes: Seq<u8>) -> Seq<u8> {
    if bytes.len() > 0 && bytes[0] == 43 {
        bytes.drop_first()
    } else {
        bytes
    }
}

/// The number up to `max` that `bytes` spell in decimal: an optional plus sign,
/// then one or more digits and nothing else.
pub open spec fn parsed(bytes: Seq<u8>, max: nat) -> Option<nat> {
    let digits = unsigned_digits(bytes);
    if digits.len() > 0 && (forall|i: int| 0 <= i < digits.len() ==> is_digit(#[trigger] digits[i]))
        && digits_value(digits) <= max {
        Some(digits_value(digits))
    } else {
        None
    }
}

/// Append `n` in decimal.
pub fn push_decimal(text: &mut String, n: u64)
    ensures
        final(text)@ == old(text)@ + decimal(n as nat),
    decreases n,
{
    if n >= 10 {
        push_decimal(text, n / 10);
    }
    let d: u8 = (n % 10) as u8;
    push(text, (48 + d) as char);
    assert(text@ =~= old(text)@ + decimal(n as nat));
}

/// `n` in decimal.
pub fn decimal_string(n: u64) -> (text: String)
    ensures
        text@ == decimal(n as nat),
{
    let mut text = String::new();
    push_decimal(&mut text, n);
    assert(text@ =~= decimal(n as nat));
    text
}

/// Read a decimal number up to `max`.
pub fn parse_unsigned(bytes: &[u8], max: u32) -> (r: Option<u32>)
    ensures
        match r {
            Some(n) => parsed(bytes@, max as nat) == Some(n as nat),
            None => parsed(bytes@, max as nat) is None,
        },
{
    let ghost digits = unsigned_digits(bytes@);
    let start: usize = if bytes.len() > 0 && bytes[0] == 43 {
        1
    } else {
        0
    };
    assert(digits =~= bytes@.skip(start as int));
    if bytes.len() == start {
        return None;
    }
    let mut value: u64 = 0;
    let mut i: usize = start;
    while i < bytes.len()
        invariant
            start <= i <= bytes@.len(),
            digits == bytes@.skip(start as int),
            digits == unsigned_digits(bytes@),
            forall|j: int| 0 <= j < i - start ==> is_digit(#[trigger] digits[j]),
            value == digits_value(digits.take(i - start)),
            value <= max,
        decreases bytes@.len() - i,
    {
        let b: u8 = bytes[i];
        let ghost k = i - start;
        assert(digits[k] == b);
        if b < 48 || b > 57 {
            assert(!is_digit(digits[k]));
            return None;
        }
        assert(digits.take(k + 1).drop_last() =~= digits.take(k));
        value = value * 10 + (b - 48) as u64;
        if value > max as u64 {
            proof {
                lemma_value_grows(digits, k + 1);
            }
            return None;
        }
        i = i + 1;
    }
    assert(digits.take(i - start) =~= digits);
    Some(value as u32)
}

/// More digits never make a smaller number.
proof fn lemma_value_grows(digits: Seq<u8>, n: int)
    requires
        0 <= n <= digits.len(),
    ensures
        digits_value(digits.take(n)) <= digits_value(digits),
    decreases digits.len() - n,
{
    if n < digits.len() {
        lemma_value_grows(digits, n + 1);
        assert(digits.take(n + 1).drop_last() =~= digits.take(n));
    } else {
        assert(digits.take(n) =~= digits);
    }
}

/// The bytes of a text of ASCII characters.
spec fn ascii_bytes(text: Seq<char>) -> Seq<u8> {
    text.map_values(|c: char| c as u8)
}

/// A number written in decimal is read back as that number.
pub proof fn law_decimal_round_trip(n: nat, max: nat)
    requires
        n <= max,
    ensures
        parsed(encode_utf8(decimal(n)), max) == Some(n),
{
    lemma_decimal_digits(n);
    let bytes = ascii_bytes(decimal(n));
    assert(is_ascii_chars(decimal(n)));
    is_ascii_chars_encode_utf8(decimal(n));
    assert(encode_utf8(decimal(n)) =~= bytes);
    assert(is_digit(bytes[0]));
    assert(unsigned_digits(bytes) == bytes);
}

proof fn lemma_decimal_digits(n: nat)
    ensures
        decimal(n).len() > 0,
        forall|i: int| 0 <= i < decimal(n).len() ==> '0' <= #[trigger] decimal(n)[i] <= '9',
        forall|i: int|
            0 <= i < decimal(n).len() ==> is_digit(#[trigger] ascii_bytes(decimal(n))[i]),
        digits_value(ascii_bytes(decimal(n))) == n,
    decreases n,
{
    let bytes = ascii_bytes(decimal(n));
    if n < 10 {
        assert(bytes.last() == 48 + n);
        assert(bytes.drop_last() =~= Seq::<u8>::empty());
        assert(digits_value(bytes.drop_last()) == 0);
    } else {
        lemma_decimal_digits(n / 10);
        let front = ascii_bytes(decimal(n / 10));
        assert(bytes.drop_last() =~= front);
        assert(bytes.last() == 48 + n % 10);
        assert forall|i: int| 0 <= i < decimal(n).len() implies is_digit(#[trigger] bytes[i]) by {
            if i < front.len() {
                assert(bytes[i] == front[i]);
            }
        }
        assert forall|i: int| 0 <= i < decimal(n).len() implies '0' <= #[trigger] decimal(n)[i]
            <= '9' by {
            if i < front.len() {
                assert(decimal(n)[i] == decimal(n / 10)[i]);
            }
        }
    }
}

/// A text contains exactly what can be cut out of it in one piece: every piece of
/// it, itself and nothing among them, and nothing longer.
pub proof fn law_contains_is_being_a_part(hay: Seq<char>, needle: Seq<char>, front: int)
    requires
        0 <= front,
    ensures
        front + needle.len() <= hay.len() && hay.subrange(front, front + needle.len()) == needle
            ==> contains_text(hay, needle),
        contains_text(hay, needle) ==> exists|a: Seq<char>, b: Seq<char>|
            hay == #[trigger] (a + needle + b),
        contains_text(hay, hay),
        contains_text(hay, Seq::empty()),
        needle.len() > hay.len() ==> !contains_text(hay, needle),
        needle.len() == hay.len() ==> (contains_text(hay, needle) <==> hay == needle),
{
    if front + needle.len() <= hay.len() && hay.subrange(front, front + needle.len()) == needle {
        assert(stands_at(hay, needle, front));
    }
    if contains_text(hay, needle) {
        let i = choose|i: int| stands_at(hay, needle, i);
        let a = hay.take(i);
        let b = hay.skip(i + needle.len());
        assert(hay =~= a + needle + b);
    }
    assert(hay.subrange(0, hay.len() as int) =~= hay);
    assert(stands_at(hay, hay, 0));
    assert(hay.subrange(0, 0) =~= Seq::<char>::empty());
    assert(stands_at(hay, Seq::empty(), 0));
    if needle.len() == hay.len() && contains_text(hay, needle) {
        let i = choose|i: int| stands_at(hay, needle, i);
        assert(i == 0);
    }
}

/// Texts are ordered by the first place at which they differ; where there is none,
/// the shorter comes first.
pub proof fn law_order_is_by_the_first_difference(a: Seq<char>, b: Seq<char>, k: int)
    requires
        0 <= k <= a.len(),
        k <= b.len(),
        a.take(k) == b.take(k),
    ensures
        k < a.len() && k < b.len() && a[k] != b[k] ==> (text_less(a, b) <==> (a[k] as int) < (
        b[k] as int)),
        k == a.len() ==> (text_less(a, b) <==> a.len() < b.len()),
        k == b.len() ==> !text_less(a, b),
    decreases k,
{
    if k > 0 {
        assert(a[0] == a.take(k)[0] && b[0] == b.take(k)[0]);
        assert(a.drop_first().take(k - 1) =~= a.take(k).drop_first());
        assert(b.drop_first().take(k - 1) =~= b.take(k).drop_first());
        law_order_is_by_the_first_difference(a.drop_first(), b.drop_first(), k - 1);
    }
}

/// Digit `i` from the right of a number in decimal is how often 10^i goes into it,
/// up to whole tens; and there are as many digits as it takes, with no zero in
/// front.
pub proof fn law_decimal_is_positional(n: nat, i: nat)
    ensures
        ({
            let text = decimal(n);
            &&& i < text.len() ==> text[text.len() - 1 - i] as int == '0' as int + (n as int) / pow(
                10,
                i,
            ) % 10
            &&& 0 < text.len()
            &&& n < pow(10, text.len())
            &&& text.len() > 1 ==> n >= pow(10, (text.len() - 1) as nat)
        }),
    decreases n,
{
    let text = decimal(n);
    lemma_pow0(10);
    lemma_pow1(10);
    if n >= 10 {
        let front = decimal(n / 10);
        let m = (n / 10) as int;
        law_decimal_is_positional(n / 10, 0);
        let len = front.len();
        assert(pow(10, len + 1) == 10 * pow(10, len)) by {
            reveal(pow);
        }
        assert(pow(10, len) == 10 * pow(10, (len - 1) as nat)) by {
            reveal(pow);
        }
        assert(n >= pow(10, len)) by {
            if len > 1 {
                assert(m >= pow(10, (len - 1) as nat));
            } else {
                assert(pow(10, 0) == 1);
            }
        }
        if 0 < i < text.len() {
            law_decimal_is_positional(n / 10, (i - 1) as nat);
            let p = pow(10, (i - 1) as nat);
            assert(pow(10, i) == 10 * p) by {
                reveal(pow);
            }
            lemma_pow_positive(10, (i - 1) as nat);
            assert((n as int) / (10 * p) == ((n as int) / 10) / p) by {
                lemma_div_denominator(n as int, 10, p);
            }
            assert(text[text.len() - 1 - i] == front[front.len() - 1 - (i - 1)]);
        }
    }
}

/// How numbers are read: a text of one digit is that digit; another digit behind a
/// number makes it ten times as large and adds the digit; a plus sign in front
/// changes nothing; what exceeds the limit is no number.
pub proof fn law_numbers_are_read_digit_by_digit(bytes: Seq<u8>, b: u8, max: nat, n: nat)
    ensures
        is_digit(b) <==> '0' as int <= b <= '9' as int,
        is_digit(b) && b - 48 <= max ==> parsed(seq![b], max) == Some((b - 48) as nat),
        bytes.len() > 0 && is_digit(b) && parsed(bytes, n) == Some(n) ==> parsed(bytes.push(b), max)
            == (if 10 * n + (b - 48) <= max {
            Some((10 * n + (b - 48)) as nat)
        } else {
            None
        }),
        bytes.len() > 0 && bytes[0] != 43 ==> parsed(seq![43u8] + bytes, max) == parsed(bytes, max),
        parsed(bytes, max) == Some(n) ==> n <= max && parsed(bytes, n) == Some(n),
{
    let one = seq![b];
    assert(one.drop_last() =~= Seq::<u8>::empty());
    if is_digit(b) {
        assert(one.last() == b);
        assert(digits_value(one.drop_last()) == 0);
        assert(unsigned_digits(one) == one);
    }
    if bytes.len() > 0 && is_digit(b) && parsed(bytes, n) == Some(n) {
        let more = bytes.push(b);
        let digits = unsigned_digits(bytes);
        assert(unsigned_digits(more) =~= digits.push(b));
        assert(digits.push(b).drop_last() =~= digits);
        assert forall|i: int| 0 <= i < digits.push(b).len() implies is_digit(
            #[trigger] digits.push(b)[i],
        ) by {
            if i < digits.len() {
                assert(digits.push(b)[i] == digits[i]);
            }
        }
    }
    assert((seq![43u8] + bytes).drop_first() =~= bytes);
}

/// What is no number: nothing, a sign alone, and anything with a byte in it that
/// is no digit, but for a plus sign in front.
pub proof fn law_only_numbers_are_read(bytes: Seq<u8>, i: int, max: nat)
    ensures
        bytes.len() == 0 ==> parsed(bytes, max) is None,
        bytes == seq![43u8] ==> parsed(bytes, max) is None,
        0 < i < bytes.len() && !(48 <= bytes[i] <= 57) ==> parsed(bytes, max) is None,
        bytes.len() > 0 && !(48 <= bytes[0] <= 57) && bytes[0] != 43 ==> parsed(bytes, max) is None,
{
    let digits = unsigned_digits(bytes);
    if 0 < i < bytes.len() && !(48 <= bytes[i] <= 57) {
        if bytes[0] == 43 {
            assert(digits[i - 1] == bytes[i]);
        } else {
            assert(digits[i] == bytes[i]);
        }
    }
    if bytes.len() > 0 && !(48 <= bytes[0] <= 57) && bytes[0] != 43 {
        assert(digits[0] == bytes[0]);
    }
}

} // verus!
