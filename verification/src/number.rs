//! Whole numbers as decimal text, written and read.

use vstd::prelude::*;

use crate::text::chars_of;

verus! {

/// The decimal digit of `d`.
pub open spec fn digit_char(d: int) -> char {
    (48 + d) as u8 as char
}

/// `n` in decimal, without leading zeros.
pub open spec fn decimal(n: nat) -> Seq<char>
    decreases n,
{
    if n < 10 {
        seq![digit_char(n as int)]
    } else {
        decimal(n / 10).push(digit_char((n % 10) as int))
    }
}

/// `n` in decimal, with a sign where it is negative.
pub open spec fn integer_text(n: int) -> Seq<char> {
    if n < 0 {
        seq!['-'] + decimal((-n) as nat)
    } else {
        decimal(n as nat)
    }
}

/// Whether `c` is a decimal digit.
pub open spec fn is_digit(c: char) -> bool {
    '0' <= c <= '9'
}

/// Whether `s` is made of decimal digits.
pub open spec fn all_digits(s: Seq<char>) -> bool {
    forall|i: int| 0 <= i < s.len() ==> is_digit(#[trigger] s[i])
}

/// The number that the digits `s` write.
pub open spec fn digits_value(s: Seq<char>) -> nat
    decreases s.len(),
{
    if s.len() == 0 {
        0
    } else {
        (digits_value(s.drop_last()) * 10 + (s.last() as u32 - 48)) as nat
    }
}

/// The number that `s` writes: digits, with or without a plus sign before them.
pub open spec fn unsigned_value(s: Seq<char>) -> Option<nat> {
    let d = if s.len() > 0 && s[0] == '+' {
        s.drop_first()
    } else {
        s
    };
    if d.len() > 0 && all_digits(d) {
        Some(digits_value(d))
    } else {
        None
    }
}

/// The number that `s` writes, where it is no larger than `max`.
pub open spec fn bounded_value(s: Seq<char>, max: nat) -> Option<nat> {
    match unsigned_value(s) {
        Some(v) => if v <= max {
            Some(v)
        } else {
            None
        },
        None => None,
    }
}

proof fn lemma_prefix_value(s: Seq<char>, n: int)
    requires
        0 <= n <= s.len(),
        all_digits(s),
    ensures
        digits_value(s.take(n)) <= digits_value(s),
    decreases s.len() - n,
{
    if n < s.len() {
        lemma_prefix_value(s, n + 1);
        let t = s.take(n + 1);
        assert(t.drop_last() == s.take(n));
        assert(is_digit(s[n]));
        assert(t.last() == s[n]);
    } else {
        assert(s.take(n) == s);
    }
}

/// Writing a number and reading the digits gives the number back.
pub proof fn law_decimal_reads_back(n: nat)
    ensures
        all_digits(decimal(n)),
        decimal(n).len() > 0,
        digits_value(decimal(n)) == n,
        unsigned_value(decimal(n)) == Some(n),
    decreases n,
{
    let d = digit_char((n % 10) as int);
    assert(is_digit(d));
    assert(d as u32 - 48 == n % 10);
    if n >= 10 {
        law_decimal_reads_back(n / 10);
        let s = decimal(n);
        assert(s.drop_last() == decimal(n / 10));
        assert(all_digits(s));
        assert(is_digit(s[0]));
    } else {
        let s = decimal(n);
        assert(s.drop_last() == Seq::<char>::empty());
        assert(is_digit(s[0]));
        assert(digits_value(s.drop_last()) == 0);
    }
}

/// Two integers with one text are one integer.
pub proof fn lemma_integer_text_injective(m: int, n: int)
    requires
        integer_text(m) == integer_text(n),
    ensures
        m == n,
{
    let a = if m < 0 {
        (-m) as nat
    } else {
        m as nat
    };
    let b = if n < 0 {
        (-n) as nat
    } else {
        n as nat
    };
    law_decimal_reads_back(a);
    law_decimal_reads_back(b);
    assert(is_digit(decimal(a)[0]));
    assert(is_digit(decimal(b)[0]));
    if m < 0 {
        assert(integer_text(m)[0] == '-');
        assert(integer_text(m).skip(1) == decimal(a));
        if n < 0 {
            assert(integer_text(n).skip(1) == decimal(b));
        }
    } else if n < 0 {
        assert(integer_text(n)[0] == '-');
    }
}

/// Appends `n` in decimal to `out`.
fn append_decimal(out: &mut String, n: u64)
    ensures
        final(out)@ == old(out)@ + decimal(n as nat),
    decreases n,
{
    if n >= 10 {
        append_decimal(out, n / 10);
    }
    let d: u8 = (n % 10) as u8;
    out.push((48 + d) as char);
    assert(out@ == old(out)@ + decimal(n as nat));
}

/// `n` in decimal.
pub fn decimal_text(n: u64) -> (r: String)
    ensures
        r@ == decimal(n as nat),
{
    let mut out = String::new();
    append_decimal(&mut out, n);
    assert(out@ == decimal(n as nat));
    out
}

/// `n` in decimal, with a sign where it is negative.
pub fn signed_text(n: i64) -> (r: String)
    ensures
        r@ == integer_text(n as int),
{
    let mut out = String::new();
    if n < 0 {
        out.push('-');
        append_decimal(&mut out, (-(n as i128)) as u64);
    } else {
        append_decimal(&mut out, n as u64);
    }
    assert(out@ == integer_text(n as int));
    out
}

/// The number that `s` writes: digits, with or without a plus sign before them. `None` where `s`
/// is anything else, or the number is too large.
pub fn parse_u64(s: &str) -> (r: Option<u64>)
    ensures
        match bounded_value(s@, u64::MAX as nat) {
            Some(v) => r == Some(v as u64),
            None => r is None,
        },
{
    let chars = chars_of(s);
    let start: usize = if chars.len() > 0 && chars[0] == '+' {
        1
    } else {
        0
    };
    let ghost d = chars@.skip(start as int);
    assert(d == if s@.len() > 0 && s@[0] == '+' {
        s@.drop_first()
    } else {
        s@
    });
    if start == chars.len() {
        return None;
    }
    let mut value: u64 = 0;
    for i in start..chars.len()
        invariant
            start <= chars@.len(),
            chars@ == s@,
            d == chars@.skip(start as int),
            all_digits(d.take(i - start)),
            value == digits_value(d.take(i - start)),
            unsigned_value(s@) == if d.len() > 0 && all_digits(d) {
                Some(digits_value(d))
            } else {
                None
            },
    {
        let c = chars[i];
        let ghost head = d.take(i - start);
        let ghost next = d.take(i + 1 - start);
        assert(next.drop_last() == head);
        assert(next.last() == c);
        assert(c == d[i - start]);
        if !('0' <= c && c <= '9') {
            assert(!is_digit(d[i - start]));
            return None;
        }
        assert(all_digits(next)) by {
            assert forall|k: int| 0 <= k < next.len() implies is_digit(#[trigger] next[k]) by {
                if k < head.len() {
                    assert(is_digit(head[k]));
                    assert(next[k] == head[k]);
                }
            }
        }
        let step: u64 = c as u64 - 48;
        match value.checked_mul(10) {
            None => {
                proof {
                    if all_digits(d) {
                        lemma_prefix_value(d, i + 1 - start);
                    }
                }
                return None;
            },
            Some(tens) => match tens.checked_add(step) {
                None => {
                    proof {
                        if all_digits(d) {
                            lemma_prefix_value(d, i + 1 - start);
                        }
                    }
                    return None;
                },
                Some(sum) => {
                    value = sum;
                },
            },
        }
    }
    assert(d.take(d.len() as int) == d);
    Some(value)
}

} // verus!
