//! Decimal text of integers: formatting (as `Display` writes them) and
//! parsing (as `str::parse::<i64>` reads them).
use vstd::prelude::*;

use crate::chars::string_of;

verus! {

/// The character of the decimal digit `d` (for `0 <= d < 10`).
pub open spec fn digit_char(d: int) -> char {
    (48 + d) as char
}

/// The decimal text of a natural number, most significant digit first,
/// without leading zeros ("0" for zero).
pub open spec fn nat_text(n: nat) -> Seq<char>
    decreases n,
{
    if n < 10 {
        seq![digit_char(n as int)]
    } else {
        nat_text(n / 10).push(digit_char((n % 10) as int))
    }
}

/// The decimal text of an integer: a `-` before the digits of negative values.
pub open spec fn int_text(i: int) -> Seq<char> {
    if i < 0 {
        seq!['-'] + nat_text((-i) as nat)
    } else {
        nat_text(i as nat)
    }
}

pub open spec fn is_digit(c: char) -> bool {
    '0' <= c && c <= '9'
}

pub open spec fn all_digits(s: Seq<char>) -> bool {
    forall|i: int| 0 <= i < s.len() ==> is_digit(#[trigger] s[i])
}

pub open spec fn digit_value(c: char) -> int {
    (c as int) - 48
}

/// The value of a string of decimal digits.
pub open spec fn digits_value(s: Seq<char>) -> int
    decreases s.len(),
{
    if s.len() == 0 {
        0
    } else {
        10 * digits_value(s.drop_last()) + digit_value(s.last())
    }
}

/// What a string of digits after an optional `+` or `-` denotes, before any
/// range check: `None` for an empty string, a lone sign or a non-digit.
pub open spec fn signed_value(s: Seq<char>) -> Option<int> {
    if s.len() == 0 {
        None
    } else {
        let body = if s[0] == '-' || s[0] == '+' {
            s.drop_first()
        } else {
            s
        };
        if body.len() == 0 || !all_digits(body) {
            None
        } else if s[0] == '-' {
            Some(-digits_value(body))
        } else {
            Some(digits_value(body))
        }
    }
}

/// The result of `str::parse::<i64>` on text `s`.
pub open spec fn parse_i64_spec(s: Seq<char>) -> Option<i64> {
    match signed_value(s) {
        Some(v) => if i64::MIN <= v && v <= i64::MAX {
            Some(v as i64)
        } else {
            None
        },
        None => None,
    }
}

fn digit(d: u8) -> (c: char)
    requires
        d < 10,
    ensures
        c == digit_char(d as int),
{
    (48u8 + d) as char
}

/// The decimal digits of `n`.
pub fn u128_digits(n: u128) -> (v: Vec<char>)
    ensures
        v@ == nat_text(n as nat),
    decreases n,
{
    if n < 10 {
        let mut v: Vec<char> = Vec::new();
        v.push(digit(n as u8));
        v
    } else {
        let mut v = u128_digits(n / 10);
        v.push(digit((n % 10) as u8));
        v
    }
}

/// The decimal text of `i`, with a leading `-` when negative.
pub fn i64_chars(i: i64) -> (v: Vec<char>)
    ensures
        v@ == int_text(i as int),
{
    if i < 0 {
        let mag: u128 = (0i128 - (i as i128)) as u128;
        let digits = u128_digits(mag);
        let mut v: Vec<char> = Vec::new();
        v.push('-');
        crate::chars::extend_chars(&mut v, digits.as_slice());
        assert(v@ =~= seq!['-'] + nat_text((-i) as nat));
        v
    } else {
        u128_digits(i as u128)
    }
}

/// The decimal text of `i`, as `i.to_string()` writes it.
pub fn i64_to_string(i: i64) -> (s: String)
    ensures
        s@ == int_text(i as int),
{
    let v = i64_chars(i);
    string_of(v.as_slice())
}

/// The decimal text of `n`, as `n.to_string()` writes it.
pub fn u128_to_string(n: u128) -> (s: String)
    ensures
        s@ == nat_text(n as nat),
{
    let v = u128_digits(n);
    string_of(v.as_slice())
}

proof fn lemma_digits_value_take_monotone(s: Seq<char>, i: int, j: int)
    requires
        0 <= i <= j <= s.len(),
        all_digits(s),
    ensures
        digits_value(s.take(i)) <= digits_value(s.take(j)),
        0 <= digits_value(s.take(i)),
    decreases j - i + j,
{
    if j > 0 {
        assert(s.take(j).drop_last() =~= s.take(j - 1));
        assert(is_digit(s[j - 1]));
        if i < j {
            lemma_digits_value_take_monotone(s, i, j - 1);
        }
        lemma_digits_value_take_monotone(s, j - 1, j - 1);
    } else {
        assert(s.take(0).len() == 0);
    }
}

/// Parses `s` as `str::parse::<i64>` does.
pub fn parse_i64(s: &[char]) -> (r: Option<i64>)
    ensures
        r == parse_i64_spec(s@),
{
    if s.len() == 0 {
        return None;
    }
    let neg = s[0] == '-';
    let start: usize = if s[0] == '-' || s[0] == '+' { 1 } else { 0 };
    if start == s.len() {
        proof {
            assert(s@.drop_first().len() == 0);
        }
        return None;
    }
    let ghost body = if s@[0] == '-' || s@[0] == '+' { s@.drop_first() } else { s@ };
    let limit: u64 = if neg { 9223372036854775808u64 } else { 9223372036854775807u64 };
    let mut acc: u64 = 0;
    let mut i: usize = start;
    while i < s.len()
        invariant
            start <= i <= s@.len(),
            start == 0 || start == 1,
            body =~= s@.skip(start as int),
            s@.len() > 0,
            body == (if s@[0] == '-' || s@[0] == '+' { s@.drop_first() } else { s@ }),
            body.len() > 0,
            limit == (if neg { 9223372036854775808u64 } else { 9223372036854775807u64 }),
            neg == (s@[0] == '-'),
            forall|j: int| 0 <= j < i - start ==> is_digit(#[trigger] body[j]),
            acc == digits_value(body.take(i - start)),
            acc <= limit,
        decreases s@.len() - i,
    {
        let c = s[i];
        if !('0' <= c && c <= '9') {
            proof {
                assert(body[i - start] == c);
                assert(!is_digit(body[i - start]));
                assert(!all_digits(body));
                assert(signed_value(s@) is None);
            }
            return None;
        }
        let d: u64 = ((c as u32) - 48) as u64;
        proof {
            assert(body.take(i - start + 1).drop_last() =~= body.take(i - start));
            assert(body.take(i - start + 1).last() == c);
        }
        if acc > (limit - d) / 10 {
            // acc * 10 + d > limit
            proof {
                assert(acc * 10 + d > limit) by (nonlinear_arith)
                    requires
                        acc > (limit - d) / 10,
                        d <= limit,
                ;
                let k = i - start + 1;
                assert(digits_value(body.take(k)) == 10 * acc + d);
                if all_digits(body) {
                    lemma_digits_value_take_monotone(body, k, body.len() as int);
                    assert(body.take(body.len() as int) =~= body);
                    assert(digits_value(body) > limit);
                    assert(signed_value(s@) is Some);
                    if neg {
                        assert(signed_value(s@) == Some(-digits_value(body)));
                    } else {
                        assert(signed_value(s@) == Some(digits_value(body)));
                    }
                }
            }
            return None;
        }
        acc = acc * 10 + d;
        i = i + 1;
    }
    proof {
        assert(body.take(body.len() as int) =~= body);
        assert(all_digits(body));
    }
    if neg {
        if acc == 9223372036854775808u64 {
            Some(-9223372036854775807i64 - 1)
        } else {
            Some(0i64 - (acc as i64))
        }
    } else {
        Some(acc as i64)
    }
}

proof fn lemma_digit_char(d: int)
    requires
        0 <= d < 10,
    ensures
        digit_value(digit_char(d)) == d,
        is_digit(digit_char(d)),
{
    assert(((48 + d) as char) as int == 48 + d);
}

proof fn lemma_nat_text_shape(n: nat)
    ensures
        nat_text(n).len() > 0,
        all_digits(nat_text(n)),
        digits_value(nat_text(n)) == n,
        is_digit(nat_text(n)[0]),
    decreases n,
{
    if n >= 10 {
        lemma_nat_text_shape(n / 10);
        lemma_digit_char((n % 10) as int);
        let t = nat_text(n);
        assert(t.drop_last() =~= nat_text(n / 10));
        assert(t.last() == digit_char((n % 10) as int));
        assert(digits_value(t) == 10 * digits_value(t.drop_last()) + digit_value(t.last()));
        assert(n == 10 * (n / 10) + n % 10);
        assert(t[0] == nat_text(n / 10)[0]);
        assert forall|i: int| 0 <= i < t.len() implies is_digit(#[trigger] t[i]) by {
            if i < t.len() - 1 {
                assert(t[i] == nat_text(n / 10)[i]);
            }
        }
    } else {
        lemma_digit_char(n as int);
        let t = nat_text(n);
        assert(t.drop_last() =~= Seq::<char>::empty());
        assert(digits_value(t.drop_last()) == 0);
        assert(digits_value(t) == 10 * digits_value(t.drop_last()) + digit_value(t.last()));
    }
}

/// The decimal text of an integer holds only digits and `-`.
pub proof fn lemma_int_text_chars(i: int)
    ensures
        forall|j: int|
            0 <= j < int_text(i).len() ==> is_digit(#[trigger] int_text(i)[j]) || int_text(i)[j]
                == '-',
{
    if i < 0 {
        let n = (-i) as nat;
        lemma_nat_text_shape(n);
        let t = int_text(i);
        assert forall|j: int| 0 <= j < t.len() implies is_digit(#[trigger] t[j]) || t[j] == '-' by {
            if j > 0 {
                assert(t[j] == nat_text(n)[j - 1]);
            }
        }
    } else {
        lemma_nat_text_shape(i as nat);
    }
}

/// Parsing the decimal text of any `i64` gives back that value.
pub proof fn lemma_parse_int_text(i: i64)
    ensures
        parse_i64_spec(int_text(i as int)) == Some(i),
{
    if i < 0 {
        let n = (-i) as nat;
        lemma_nat_text_shape(n);
        let s = int_text(i as int);
        assert(s.drop_first() =~= nat_text(n));
    } else {
        lemma_nat_text_shape(i as nat);
    }
}

} // verus!
