//! Decimal notation: how integers are written and read back.
//!
//! Numbers are written without sign, padding or separators (a leading `-`
//! for negative values). Reading accepts an optional sign, then one or more
//! ASCII digits, and rejects whatever does not fit in the target range.

use vstd::prelude::*;
use vstd::slice::slice_subrange;
use crate::text::{eq_ignore_ascii_case, equals_ignore_ascii_case, find, find_char, is_trimmed};

verus! {

pub open spec fn is_digit(c: char) -> bool {
    '0' <= c && c <= '9'
}

/// The value of a digit character; 0 for any other character.
pub open spec fn digit_of(c: char) -> nat {
    if is_digit(c) {
        (c as u32 - 48) as nat
    } else {
        0
    }
}

/// The character that stands for the digit `d`, for `d < 10`.
pub open spec fn digit_char(d: nat) -> char {
    (48 + d) as char
}

pub open spec fn all_digits(s: Seq<char>) -> bool {
    forall|i: int| 0 <= i < s.len() ==> is_digit(#[trigger] s[i])
}

/// The decimal notation of `n`.
pub open spec fn decimal(n: nat) -> Seq<char>
    decreases n,
{
    if n < 10 {
        seq![digit_char(n)]
    } else {
        decimal(n / 10).push(digit_char(n % 10))
    }
}

/// The decimal notation of `n`, with a leading `-` when `n` is negative.
pub open spec fn signed_decimal(n: int) -> Seq<char> {
    if n < 0 {
        seq!['-'] + decimal((-n) as nat)
    } else {
        decimal(n as nat)
    }
}

/// The number that a sequence of digits denotes, most significant first.
pub open spec fn number_of(s: Seq<char>) -> nat
    decreases s.len(),
{
    if s.len() == 0 {
        0
    } else {
        number_of(s.drop_last()) * 10 + digit_of(s.last())
    }
}

/// The digits of `s` once a leading `+` is taken away.
pub open spec fn unsigned_body(s: Seq<char>) -> Seq<char> {
    if s.len() > 0 && s[0] == '+' {
        s.skip(1)
    } else {
        s
    }
}

/// The value that `s` denotes as an unsigned number no greater than `max`:
/// an optional `+` followed by at least one digit.
pub open spec fn parse_unsigned(s: Seq<char>, max: nat) -> Option<nat> {
    let body = unsigned_body(s);
    if body.len() > 0 && all_digits(body) && number_of(body) <= max {
        Some(number_of(body))
    } else {
        None
    }
}

/// The value that `s` denotes as a signed number within `min..=max`: an
/// optional `+` or `-` followed by at least one digit.
pub open spec fn parse_signed(s: Seq<char>, min: int, max: int) -> Option<int> {
    let negative = s.len() > 0 && s[0] == '-';
    let body = if negative {
        s.skip(1)
    } else {
        unsigned_body(s)
    };
    let value = if negative {
        -(number_of(body) as int)
    } else {
        number_of(body) as int
    };
    if body.len() > 0 && all_digits(body) && min <= value <= max {
        Some(value)
    } else {
        None
    }
}

pub proof fn lemma_decimal_shape(n: nat)
    ensures
        decimal(n).len() > 0,
        all_digits(decimal(n)),
        number_of(decimal(n)) == n,
    decreases n,
{
    if n < 10 {
        let s = decimal(n);
        assert(s.drop_last() =~= Seq::<char>::empty());
        assert(number_of(s.drop_last()) == 0);
    } else {
        lemma_decimal_shape(n / 10);
        let s = decimal(n);
        assert(s.drop_last() =~= decimal(n / 10));
        assert(s.last() == digit_char(n % 10));
    }
}

/// A prefix of a digit sequence never denotes more than the whole.
pub proof fn lemma_number_of_prefix(s: Seq<char>, k: int)
    requires
        0 <= k <= s.len(),
    ensures
        number_of(s.take(k)) <= number_of(s),
    decreases s.len(),
{
    if k == s.len() {
        assert(s.take(k) =~= s);
    } else {
        lemma_number_of_prefix(s.drop_last(), k);
        assert(s.drop_last().take(k) =~= s.take(k));
    }
}

/// Reading back what was written gives the number again.
pub proof fn lemma_parse_unsigned_decimal(n: nat, max: nat)
    requires
        n <= max,
    ensures
        parse_unsigned(decimal(n), max) == Some(n),
        is_trimmed(decimal(n)),
        forall|j: int| 0 <= j < decimal(n).len() ==> decimal(n)[j] != '\n',
{
    lemma_decimal_shape(n);
    let s = decimal(n);
    assert(is_digit(s[0]));
    assert(is_digit(s.last()));
    assert forall|j: int| 0 <= j < s.len() implies s[j] != '\n' by {
        assert(is_digit(s[j]));
    }
}

/// Reading back what was written gives the number again, sign included.
pub proof fn lemma_parse_signed_decimal(n: int, min: int, max: int)
    requires
        min <= n <= max,
    ensures
        parse_signed(signed_decimal(n), min, max) == Some(n),
        is_trimmed(signed_decimal(n)),
        forall|j: int| 0 <= j < signed_decimal(n).len() ==> signed_decimal(n)[j] != '\n',
{
    let s = signed_decimal(n);
    if n < 0 {
        let d = decimal((-n) as nat);
        lemma_decimal_shape((-n) as nat);
        assert(s.skip(1) =~= d);
        assert(is_digit(d.last()));
        assert(s.last() == d.last());
        assert forall|j: int| 0 <= j < s.len() implies s[j] != '\n' by {
            if j > 0 {
                assert(is_digit(d[j - 1]));
            }
        }
    } else {
        lemma_decimal_shape(n as nat);
        assert(is_digit(s[0]));
        assert(is_digit(s.last()));
        assert forall|j: int| 0 <= j < s.len() implies s[j] != '\n' by {
            assert(is_digit(s[j]));
        }
    }
}

/// Appends the decimal notation of `n` to `out`.
pub fn push_decimal(out: &mut String, n: u64)
    ensures
        final(out)@ == old(out)@ + decimal(n as nat),
    decreases n,
{
    if n >= 10 {
        push_decimal(out, n / 10);
    }
    let d: u8 = (n % 10) as u8;
    out.push((48u8 + d) as char);
    proof {
        if n >= 10 {
            assert(old(out)@ + decimal(n as nat) =~= (old(out)@ + decimal((n / 10) as nat)).push(
                digit_char((n % 10) as nat),
            ));
        } else {
            assert(old(out)@ + decimal(n as nat) =~= old(out)@.push(digit_char(n as nat)));
        }
    }
}

/// Appends the decimal notation of `n` to `out`, with `-` before a negative
/// number.
pub fn push_signed_decimal(out: &mut String, n: i64)
    ensures
        final(out)@ == old(out)@ + signed_decimal(n as int),
{
    if n < 0 {
        out.push('-');
        let magnitude: u64 = if n == i64::MIN {
            9223372036854775808u64
        } else {
            (-n) as u64
        };
        push_decimal(out, magnitude);
        assert(old(out)@.push('-') + decimal(magnitude as nat) =~= old(out)@ + (seq!['-']
            + decimal(magnitude as nat)));
    } else {
        push_decimal(out, n as u64);
    }
}

/// The decimal notation of `n` as a text of its own.
pub fn decimal_text(n: u64) -> (r: String)
    ensures
        r@ == decimal(n as nat),
{
    let mut r = String::new();
    push_decimal(&mut r, n);
    assert(Seq::<char>::empty() + decimal(n as nat) =~= decimal(n as nat));
    r
}

/// The decimal notation of `n`, sign included, as a text of its own.
pub fn signed_decimal_text(n: i64) -> (r: String)
    ensures
        r@ == signed_decimal(n as int),
{
    let mut r = String::new();
    push_signed_decimal(&mut r, n);
    assert(Seq::<char>::empty() + signed_decimal(n as int) =~= signed_decimal(n as int));
    r
}

/// Reads a run of digits whose value does not exceed `max`.
fn read_digits(s: &[char], max: u64) -> (r: Option<u64>)
    ensures
        r is Some <==> s@.len() > 0 && all_digits(s@) && number_of(s@) <= max,
        r is Some ==> r->0 == number_of(s@),
{
    if s.len() == 0 {
        return None;
    }
    let mut acc: u64 = 0;
    let mut i: usize = 0;
    while i < s.len()
        invariant
            i <= s.len(),
            all_digits(s@.take(i as int)),
            acc == number_of(s@.take(i as int)),
            acc <= max,
        decreases s.len() - i,
    {
        let c = s[i];
        proof {
            assert(s@.take(i + 1).drop_last() =~= s@.take(i as int));
            assert(s@.take(i + 1).last() == c);
        }
        if !('0' <= c && c <= '9') {
            proof {
                assert(!is_digit(s@[i as int]));
            }
            return None;
        }
        let d: u8 = (c as u8) - 48;
        let next: u128 = (acc as u128) * 10 + (d as u128);
        if next > max as u128 {
            proof {
                lemma_number_of_prefix(s@, i + 1);
            }
            return None;
        }
        acc = next as u64;
        proof {
            assert forall|j: int| 0 <= j < i + 1 implies is_digit(#[trigger] s@.take(i + 1)[j]) by {
                if j < i {
                    assert(s@.take(i as int)[j] == s@.take(i + 1)[j]);
                }
            }
        }
        i += 1;
    }
    proof {
        assert(s@.take(s@.len() as int) =~= s@);
    }
    Some(acc)
}

/// Reads an unsigned decimal number no greater than `max`.
pub fn read_unsigned(s: &[char], max: u64) -> (r: Option<u64>)
    ensures
        r is Some <==> parse_unsigned(s@, max as nat) is Some,
        r is Some ==> r->0 == parse_unsigned(s@, max as nat)->0,
{
    if s.len() > 0 && s[0] == '+' {
        let body = slice_subrange(s, 1, s.len());
        assert(body@ =~= s@.skip(1));
        read_digits(body, max)
    } else {
        read_digits(s, max)
    }
}

/// Reads a signed decimal number that fits in 64 bits.
pub fn read_i64(s: &[char]) -> (r: Option<i64>)
    ensures
        r is Some <==> parse_signed(s@, i64::MIN as int, i64::MAX as int) is Some,
        r is Some ==> r->0 == parse_signed(s@, i64::MIN as int, i64::MAX as int)->0,
{
    if s.len() > 0 && s[0] == '-' {
        let body = slice_subrange(s, 1, s.len());
        assert(body@ =~= s@.skip(1));
        match read_digits(body, 9223372036854775808u64) {
            Some(m) => {
                if m == 9223372036854775808u64 {
                    Some(i64::MIN)
                } else {
                    Some(-(m as i64))
                }
            },
            None => None,
        }
    } else {
        match read_unsigned(s, 9223372036854775807u64) {
            Some(m) => Some(m as i64),
            None => None,
        }
    }
}

/// `s` once a leading `+` or `-` is taken away.
pub open spec fn without_sign(s: Seq<char>) -> Seq<char> {
    if s.len() > 0 && (s[0] == '+' || s[0] == '-') {
        s.skip(1)
    } else {
        s
    }
}

/// Index of the first `e` or `E` in `s`, or `s.len()` when there is none.
pub open spec fn find_exponent(s: Seq<char>) -> int
    decreases s.len(),
{
    if s.len() == 0 {
        0
    } else if s[0] == 'e' || s[0] == 'E' {
        0
    } else {
        1 + find_exponent(s.skip(1))
    }
}

/// Digits with at most one point among them, and at least one digit.
pub open spec fn is_mantissa(m: Seq<char>) -> bool {
    let point = find(m, '.');
    if 0 <= point < m.len() {
        all_digits(m.take(point)) && all_digits(m.skip(point + 1)) && m.len() > 1
    } else {
        all_digits(m) && m.len() > 0
    }
}

/// A mantissa, and after it, where there is an `e` or `E`, an exponent: an
/// optional sign and at least one digit.
pub open spec fn is_scientific(t: Seq<char>) -> bool {
    let mark = find_exponent(t);
    is_mantissa(t.take(mark)) && (0 <= mark < t.len() ==> {
        let exponent = without_sign(t.skip(mark + 1));
        exponent.len() > 0 && all_digits(exponent)
    })
}

/// Whether `s` is a number in decimal or scientific notation, or one of the
/// words `inf`, `infinity` and `nan` in capitals or small letters, with an
/// optional sign before it.
pub open spec fn is_real_notation(s: Seq<char>) -> bool {
    let body = without_sign(s);
    eq_ignore_ascii_case(body, "inf"@) || eq_ignore_ascii_case(body, "infinity"@)
        || eq_ignore_ascii_case(body, "nan"@) || is_scientific(body)
}

proof fn lemma_find_exponent_is(s: Seq<char>, i: int)
    requires
        0 <= i <= s.len(),
        forall|j: int| 0 <= j < i ==> s[j] != 'e' && s[j] != 'E',
        i < s.len() ==> s[i] == 'e' || s[i] == 'E',
    ensures
        find_exponent(s) == i,
    decreases s.len(),
{
    if s.len() > 0 && i > 0 {
        let t = s.skip(1);
        assert forall|j: int| 0 <= j < i - 1 implies t[j] != 'e' && t[j] != 'E' by {
            assert(t[j] == s[j + 1]);
        }
        lemma_find_exponent_is(t, i - 1);
    }
}

fn only_digits(s: &[char]) -> (r: bool)
    ensures
        r == all_digits(s@),
{
    let mut i: usize = 0;
    while i < s.len()
        invariant
            i <= s.len(),
            forall|j: int| 0 <= j < i ==> is_digit(#[trigger] s@[j]),
        decreases s.len() - i,
    {
        let c = s[i];
        if !('0' <= c && c <= '9') {
            return false;
        }
        i += 1;
    }
    true
}

fn strip_sign(s: &[char]) -> (r: &[char])
    ensures
        r@ == without_sign(s@),
{
    if s.len() > 0 && (s[0] == '+' || s[0] == '-') {
        let r = slice_subrange(s, 1, s.len());
        assert(r@ =~= s@.skip(1));
        r
    } else {
        s
    }
}

fn mantissa(m: &[char]) -> (r: bool)
    ensures
        r == is_mantissa(m@),
{
    let point = find_char(m, '.');
    if point < m.len() {
        let whole = slice_subrange(m, 0, point);
        let fraction = slice_subrange(m, point + 1, m.len());
        proof {
            assert(whole@ =~= m@.take(point as int));
            assert(fraction@ =~= m@.skip(point + 1));
        }
        only_digits(whole) && only_digits(fraction) && m.len() > 1
    } else {
        only_digits(m) && m.len() > 0
    }
}

/// Whether `s` is written as a real number: see `is_real_notation`.
pub fn real_notation(s: &[char]) -> (r: bool)
    ensures
        r == is_real_notation(s@),
{
    let body = strip_sign(s);
    if equals_ignore_ascii_case(body, "inf") || equals_ignore_ascii_case(body, "infinity")
        || equals_ignore_ascii_case(body, "nan") {
        return true;
    }
    let mut mark: usize = 0;
    while mark < body.len() && body[mark] != 'e' && body[mark] != 'E'
        invariant
            mark <= body.len(),
            forall|j: int| 0 <= j < mark ==> body@[j] != 'e' && body@[j] != 'E',
        decreases body.len() - mark,
    {
        mark += 1;
    }
    proof {
        lemma_find_exponent_is(body@, mark as int);
    }
    let head = slice_subrange(body, 0, mark);
    assert(head@ =~= body@.take(mark as int));
    if !mantissa(head) {
        return false;
    }
    if mark < body.len() {
        let tail = slice_subrange(body, mark + 1, body.len());
        assert(tail@ =~= body@.skip(mark + 1));
        let exponent = strip_sign(tail);
        exponent.len() > 0 && only_digits(exponent)
    } else {
        true
    }
}

} // verus!
