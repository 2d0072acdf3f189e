//! Reading an integer from text.

use vstd::prelude::*;

verus! {

/// The value of a decimal digit.
pub open spec fn digit_value(c: char) -> Option<int> {
    if '0' <= c <= '9' {
        Some(c as int - '0' as int)
    } else {
        None
    }
}

/// The value of a row of digits; nothing when one of them is none. An empty
/// row is worth zero.
pub open spec fn digits_value(s: Seq<char>) -> Option<int>
    decreases s.len(),
{
    if s.len() == 0 {
        Some(0)
    } else {
        match (digits_value(s.drop_last()), digit_value(s.last())) {
            (Some(head), Some(d)) => Some(head * 10 + d),
            _ => None,
        }
    }
}

/// The sign of a text, and what follows it.
pub open spec fn signed_digits(s: Seq<char>) -> (bool, Seq<char>) {
    if s.len() > 0 && s[0] == '-' {
        (true, s.skip(1))
    } else if s.len() > 0 && s[0] == '+' {
        (false, s.skip(1))
    } else {
        (false, s)
    }
}

/// The 64-bit integer a text writes: an optional sign, then digits only.
pub open spec fn integer_of(s: Seq<char>) -> Option<i64> {
    let (negative, digits) = signed_digits(s);
    match digits_value(digits) {
        Some(n) => {
            let v = if negative {
                -n
            } else {
                n
            };
            if digits.len() > 0 && i64::MIN <= v <= i64::MAX {
                Some(v as i64)
            } else {
                None
            }
        },
        None => None,
    }
}

proof fn lemma_prefix(s: Seq<char>, k: int)
    requires
        0 <= k <= s.len(),
    ensures
        digits_value(s.take(k)) is None ==> digits_value(s) is None,
        digits_value(s) is Some ==> digits_value(s.take(k)).unwrap() <= digits_value(s).unwrap(),
        digits_value(s) is Some ==> digits_value(s).unwrap() >= 0,
    decreases s.len(),
{
    if s.len() == 0 {
        assert(s.take(k) =~= s);
    } else if k == s.len() {
        assert(s.take(k) =~= s);
        lemma_prefix(s.drop_last(), k - 1);
    } else {
        assert(s.drop_last().take(k) =~= s.take(k));
        lemma_prefix(s.drop_last(), k);
    }
}

/// The 64-bit integer that `s` writes, if it writes one.
pub fn parse_integer(s: &str) -> (r: Option<i64>)
    ensures
        r == integer_of(s@),
{
    let n: usize = s.unicode_len();
    let mut start: usize = 0;
    let mut negative: bool = false;
    if n > 0 {
        let c: char = s.get_char(0);
        if c == '-' {
            negative = true;
            start = 1;
        } else if c == '+' {
            start = 1;
        }
    }
    let ghost digits = signed_digits(s@).1;
    assert(s@.skip(0) =~= s@);
    assert(digits =~= s@.skip(start as int));
    if start == n {
        return None;
    }
    let mut value: i128 = 0;
    let mut i: usize = start;
    assert(digits.take(0) =~= Seq::<char>::empty());
    while i < n
        invariant
            n == s@.len(),
            start <= i <= n,
            start < n,
            digits == s@.skip(start as int),
            signed_digits(s@) == (negative, digits),
            digits_value(digits.take(i - start)) == Some(value as int),
            0 <= value <= 0x8000_0000_0000_0000,
        decreases n - i,
    {
        let code: u32 = s.get_char(i) as u32;
        assert(digits.take(i + 1 - start).drop_last() =~= digits.take(i - start));
        assert(digits.take(i + 1 - start).last() == s@[i as int]);
        proof {
            lemma_prefix(digits, i + 1 - start);
        }
        if code < 48 || code > 57 {
            return None;
        }
        let next: i128 = value * 10 + (code as i128 - 48);
        if next > 0x8000_0000_0000_0000 {
            return None;
        }
        value = next;
        i = i + 1;
    }
    assert(digits.take(n - start) =~= digits);
    if negative {
        Some((0 - value) as i64)
    } else if value <= 0x7fff_ffff_ffff_ffff {
        Some(value as i64)
    } else {
        None
    }
}

proof fn lemma_decimal_digits(n: nat)
    ensures
        digits_value(crate::text::decimal_text(n)) == Some(n as int),
        crate::text::decimal_text(n).len() > 0,
        digit_value(crate::text::decimal_text(n)[0]) is Some,
    decreases n,
{
    let t = crate::text::decimal_text(n);
    if n < 10 {
        assert(t.drop_last() =~= Seq::<char>::empty());
        assert(digits_value(t.drop_last()) == Some(0int));
    } else {
        lemma_decimal_digits(n / 10);
        assert(t.drop_last() =~= crate::text::decimal_text(n / 10));
        assert(t[0] == crate::text::decimal_text(n / 10)[0]);
    }
}

/// An integer is read back from the text that shows it.
pub proof fn lemma_integer_round_trip(n: i64)
    ensures
        integer_of(crate::text::signed_text(n as int)) == Some(n),
{
    if n < 0 {
        lemma_decimal_digits((-n) as nat);
        reveal_strlit("-");
        let t = crate::text::signed_text(n as int);
        assert(t.skip(1) =~= crate::text::decimal_text((-n) as nat));
    } else {
        lemma_decimal_digits(n as nat);
    }
}

} // verus!
