//! Frame timestamps and rational seconds.
//!
//! A timebase `(num, den)` is the duration of one frame in seconds.

use crate::rational::{gcd_u128, Rational};
use vstd::prelude::*;

verus! {

/// `n / d` rounded toward zero.
pub open spec fn truncated_quotient(n: int, d: int) -> int {
    let q = crate::rational::magnitude(n) as int / crate::rational::magnitude(d) as int;
    if (n < 0) != (d < 0) {
        -q
    } else {
        q
    }
}

/// `n / d` rounded to the nearest integer; half a unit moves away from zero.
pub open spec fn rounded_quotient(n: int, d: int) -> int {
    let rest = crate::rational::magnitude(n) as int % crate::rational::magnitude(d) as int;
    if 2 * rest >= crate::rational::magnitude(d) {
        truncated_quotient(n, d) + (if (n < 0) != (d < 0) {
            -1int
        } else {
            1int
        })
    } else {
        truncated_quotient(n, d)
    }
}

/// The timestamp nearest to `r`; 0 for an undefined time or timebase.
pub open spec fn timestamp_of(r: Rational, tb: (i64, i64)) -> i64 {
    if r.den == 0 || tb.0 == 0 || tb.1 == 0 {
        0
    } else {
        rounded_quotient(r.num * tb.1, r.den * tb.0) as i64
    }
}

/// The time of the timestamp `ts`, in lowest terms; a component beyond 64
/// bits keeps its low bits.
pub open spec fn time_of(ts: i64, tb: (i64, i64)) -> Rational {
    let r = crate::rational::reduced(ts * tb.0, tb.1 as int);
    Rational { num: r.0 as i64, den: r.1 as i64 }
}

proof fn lemma_divisor_bound(g: nat, n: nat)
    requires
        crate::rational::divides(g, n),
        n > 0,
    ensures
        g <= n,
{
    let k = choose|k: nat| n == #[trigger] (k * g);
    assert(g <= n) by (nonlinear_arith)
        requires
            n == k * g,
            n > 0,
    ;
}

fn magnitude_of(n: i64) -> (m: u128)
    ensures
        m == crate::rational::magnitude(n as int),
        m <= 0x8000_0000_0000_0000,
{
    if n < 0 {
        (-(n as i128)) as u128
    } else {
        n as u128
    }
}

/// The greatest common divisor (1 when both are zero).
pub fn gcd(a: i64, b: i64) -> (g: i64)
    requires
        a > i64::MIN,
        b > i64::MIN,
    ensures
        g == (if a == 0 && b == 0 {
            1
        } else {
            crate::rational::gcd_of(
                crate::rational::magnitude(a as int),
                crate::rational::magnitude(b as int),
            )
        }),
{
    let m: u128 = magnitude_of(a);
    let k: u128 = magnitude_of(b);
    let g: u128 = gcd_u128(m, k);
    if g == 0 {
        proof {
            if a != 0 || b != 0 {
                crate::rational::lemma_gcd_positive(m as nat, k as nat);
            }
        }
        1
    } else {
        proof {
            crate::rational::lemma_gcd_divides(m as nat, k as nat);
            if m > 0 {
                lemma_divisor_bound(g as nat, m as nat);
            } else if k > 0 {
                lemma_divisor_bound(g as nat, k as nat);
            }
        }
        g as i64
    }
}

proof fn lemma_magnitude_product(x: u128, y: u128)
    requires
        x <= 0x8000_0000_0000_0000,
        y <= 0x8000_0000_0000_0000,
    ensures
        x * y <= 0x4000_0000_0000_0000_0000_0000_0000_0000,
{
    assert(x * y <= 0x4000_0000_0000_0000_0000_0000_0000_0000) by (nonlinear_arith)
        requires
            x <= 0x8000_0000_0000_0000,
            y <= 0x8000_0000_0000_0000,
    ;
}

proof fn lemma_product_sign(x: int, y: int)
    ensures
        crate::rational::magnitude(x * y) == crate::rational::magnitude(x)
            * crate::rational::magnitude(y),
        x != 0 && y != 0 ==> ((x * y < 0) == ((x < 0) != (y < 0))),
        x == 0 || y == 0 ==> x * y == 0,
        x != 0 && y != 0 ==> x * y != 0,
{
    assert(crate::rational::magnitude(x * y) == crate::rational::magnitude(x)
        * crate::rational::magnitude(y) && (x != 0 && y != 0 ==> ((x * y < 0) == ((x < 0) != (y
        < 0)))) && (x == 0 || y == 0 ==> x * y == 0) && (x != 0 && y != 0 ==> x * y != 0))
        by (nonlinear_arith);
}

/// Rational seconds to a timestamp in timebase units, rounding half away
/// from zero.
pub fn rational_to_ts(r: Rational, tb: (i64, i64)) -> (ts: i64)
    ensures
        ts == timestamp_of(r, tb),
{
    if r.den == 0 || tb.0 == 0 || tb.1 == 0 {
        return 0;
    }
    let rn: u128 = magnitude_of(r.num);
    let rd: u128 = magnitude_of(r.den);
    let t0: u128 = magnitude_of(tb.0);
    let t1: u128 = magnitude_of(tb.1);
    proof {
        lemma_magnitude_product(rn, t1);
        lemma_magnitude_product(rd, t0);
        lemma_product_sign(r.num as int, tb.1 as int);
        lemma_product_sign(r.den as int, tb.0 as int);
    }
    let n: u128 = rn * t1;
    let d: u128 = rd * t0;
    let n_negative: bool = r.num != 0 && ((r.num < 0) != (tb.1 < 0));
    let d_negative: bool = (r.den < 0) != (tb.0 < 0);
    proof {
        assert(d > 0) by (nonlinear_arith)
            requires
                d == rd * t0,
                rd > 0,
                t0 > 0,
        ;
        assert(n as int / d as int <= n) by (nonlinear_arith)
            requires
                d > 0,
                n >= 0,
        ;
    }
    let q: u128 = n / d;
    let rest: u128 = n % d;
    let quotient: i128 = if n_negative != d_negative {
        -(q as i128)
    } else {
        q as i128
    };
    if rest >= d - rest {
        let step: i128 = if n_negative != d_negative {
            -1
        } else {
            1
        };
        (quotient + step) as i64
    } else {
        quotient as i64
    }
}

/// A timestamp to reduced rational seconds (`time = ts * tb`).
pub fn ts_to_rational(ts: i64, tb: (i64, i64)) -> (r: Rational)
    requires
        tb.1 != 0,
        tb.1 > i64::MIN,
    ensures
        r == time_of(ts, tb),
{
    let m: u128 = magnitude_of(ts);
    let k: u128 = magnitude_of(tb.0);
    let d: u128 = magnitude_of(tb.1);
    proof {
        lemma_magnitude_product(m, k);
        lemma_product_sign(ts as int, tb.0 as int);
    }
    let n: u128 = m * k;
    let g: u128 = gcd_u128(n, d);
    proof {
        crate::rational::lemma_gcd_positive(n as nat, d as nat);
        assert(n as int / g as int <= n && d as int / g as int <= d) by (nonlinear_arith)
            requires
                g > 0,
                n >= 0,
                d >= 0,
        ;
    }
    let negative: bool = ts != 0 && tb.0 != 0 && ((ts < 0) != (tb.0 < 0));
    let top: i128 = (n / g) as i128;
    let bottom: u128 = d / g;
    let num: i128 = if negative != (tb.1 < 0) {
        -top
    } else {
        top
    };
    Rational { num: num as i64, den: bottom as i64 }
}

proof fn lemma_rounding_up(n: int, d: int)
    requires
        d > 0,
    ensures
        2 * crate::rational::magnitude(rounded_quotient(n, d) * d - n) <= d,
        2 * crate::rational::magnitude(rounded_quotient(n, d) * d - n) == d
            ==> crate::rational::magnitude(rounded_quotient(n, d) * d)
            > crate::rational::magnitude(n),
{
    let m = crate::rational::magnitude(n) as int;
    let q = m / d;
    let rest = m % d;
    assert(m == q * d + rest) by (nonlinear_arith)
        requires
            q == m / d,
            rest == m % d,
            d > 0,
    ;
    assert((q + 1) * d == q * d + d && (-q) * d == -(q * d) && (-q - 1) * d == -(q * d) - d)
        by (nonlinear_arith);
    assert(0 <= q * d) by (nonlinear_arith)
        requires
            q >= 0,
            d > 0,
    ;
}

/// Rounding lands on a nearest integer, and a tie moves away from zero.
pub proof fn lemma_rounding(n: int, d: int)
    requires
        d != 0,
    ensures
        2 * crate::rational::magnitude(rounded_quotient(n, d) * d - n)
            <= crate::rational::magnitude(d),
        2 * crate::rational::magnitude(rounded_quotient(n, d) * d - n)
            == crate::rational::magnitude(d) ==> crate::rational::magnitude(
            rounded_quotient(n, d) * d,
        ) > crate::rational::magnitude(n),
{
    if d > 0 {
        lemma_rounding_up(n, d);
    } else {
        lemma_rounding_up(-n, -d);
        let q = rounded_quotient(n, d);
        if n == 0 {
            assert(0int / crate::rational::magnitude(d) as int == 0 && 0int
                % crate::rational::magnitude(d) as int == 0) by (nonlinear_arith)
                requires
                    crate::rational::magnitude(d) > 0,
            ;
        }
        assert(q == rounded_quotient(-n, -d));
        assert(q * -d == -(q * d)) by (nonlinear_arith);
    }
}

/// Converting a timestamp to seconds and back gives the timestamp, for every
/// positive timebase in which its time is representable.
pub proof fn lemma_timestamp_round_trip(ts: i64, tb: (i64, i64))
    requires
        tb.0 > 0,
        tb.1 > 0,
        crate::rational::representable(ts * tb.0, tb.1 as int),
    ensures
        timestamp_of(time_of(ts, tb), tb) == ts,
{
    let r = time_of(ts, tb);
    crate::rational::lemma_reduced_value(ts * tb.0, tb.1 as int);
    let n = r.num * tb.1;
    let d = r.den * tb.0;
    assert(d > 0) by (nonlinear_arith)
        requires
            d == r.den * tb.0,
            r.den > 0,
            tb.0 > 0,
    ;
    assert(n == ts * d) by (nonlinear_arith)
        requires
            n == r.num * tb.1,
            d == r.den * tb.0,
            r.num * tb.1 == (ts * tb.0) * r.den,
    ;
    lemma_product_sign(ts as int, d);
    let m = crate::rational::magnitude(ts as int) as int;
    assert((m * d) / d == m && (m * d) % d == 0) by (nonlinear_arith)
        requires
            d > 0,
    ;
}

} // verus!
