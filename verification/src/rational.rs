//! Rational seconds: the time type of the timeline.

use vstd::prelude::*;

verus! {

/// A time in rational seconds.
///
/// A time is defined when its denominator is positive; [`Rational::null`] is
/// the canonical undefined time.
#[derive(Clone, Copy, Debug)]
pub struct Rational {
    pub num: i64,
    pub den: i64,
}

/// The distance of `n` from zero.
pub open spec fn magnitude(n: int) -> nat {
    if n < 0 {
        (-n) as nat
    } else {
        n as nat
    }
}

/// The greatest common divisor, by Euclid's recursion; `gcd_of(a, 0) == a`.
pub open spec fn gcd_of(a: nat, b: nat) -> nat
    decreases b,
{
    if b == 0 {
        a
    } else {
        gcd_of(b, a % b)
    }
}

/// Whether `d` divides `n`.
pub open spec fn divides(d: nat, n: nat) -> bool {
    exists|k: nat| n == #[trigger] (k * d)
}

/// `n / d` in lowest terms with a positive denominator; `(0, 0)` for `d == 0`.
pub open spec fn reduced(n: int, d: int) -> (int, int) {
    if d == 0 {
        (0, 0)
    } else {
        let g = gcd_of(magnitude(n), magnitude(d)) as int;
        let top = magnitude(n) as int / g;
        (if (n < 0) != (d < 0) { -top } else { top }, magnitude(d) as int / g)
    }
}

/// Whether `n / d` in lowest terms fits the 64-bit representation.
pub open spec fn representable(n: int, d: int) -> bool {
    &&& i64::MIN <= reduced(n, d).0 <= i64::MAX
    &&& reduced(n, d).1 <= i64::MAX
}

/// The time `n / d` in lowest terms, when it is representable.
pub open spec fn rational_of(n: int, d: int) -> Option<Rational> {
    if representable(n, d) {
        Some(Rational { num: reduced(n, d).0 as i64, den: reduced(n, d).1 as i64 })
    } else {
        None
    }
}

pub proof fn lemma_gcd_positive(a: nat, b: nat)
    requires
        a > 0 || b > 0,
    ensures
        gcd_of(a, b) > 0,
    decreases b,
{
    if b != 0 {
        lemma_gcd_positive(b, a % b);
    }
}

/// The recursion yields a common divisor.
pub proof fn lemma_gcd_divides(a: nat, b: nat)
    ensures
        divides(gcd_of(a, b), a),
        divides(gcd_of(a, b), b),
    decreases b,
{
    if b == 0 {
        assert(a == 1 * a);
        assert(b == 0 * a);
    } else {
        let g = gcd_of(b, a % b);
        lemma_gcd_divides(b, a % b);
        let k = choose|k: nat| b == #[trigger] (k * g);
        let m = choose|m: nat| a % b == #[trigger] (m * g);
        let q = a / b;
        assert(a == (q * k + m) * g) by (nonlinear_arith)
            requires
                b == k * g,
                a % b == m * g,
                q == a / b,
                b > 0,
        ;
    }
}

/// Every common divisor divides the value of the recursion, so no common
/// divisor is greater.
pub proof fn lemma_gcd_greatest(a: nat, b: nat, c: nat)
    requires
        divides(c, a),
        divides(c, b),
    ensures
        divides(c, gcd_of(a, b)),
    decreases b,
{
    if b != 0 {
        let k = choose|k: nat| a == #[trigger] (k * c);
        let m = choose|m: nat| b == #[trigger] (m * c);
        let q = a / b;
        assert(a % b == (k - q * m) * c) by (nonlinear_arith)
            requires
                a == k * c,
                b == m * c,
                q == a / b,
                b > 0,
        ;
        assert(k - q * m >= 0) by (nonlinear_arith)
            requires
                a % b == (k - q * m) * c,
                b > 0,
                b == m * c,
        ;
        assert(divides(c, a % b)) by {
            assert(a % b == ((k - q * m) as nat) * c);
        }
        lemma_gcd_greatest(b, a % b, c);
    }
}

/// Scaling both arguments scales the greatest common divisor.
pub proof fn lemma_gcd_scale(k: nat, a: nat, b: nat)
    requires
        k > 0,
    ensures
        gcd_of(k * a, k * b) == k * gcd_of(a, b),
    decreases b,
{
    if b == 0 {
        assert(k * b == 0);
    } else {
        lemma_gcd_scale(k, b, a % b);
        assert((k * a) % (k * b) == k * (a % b)) by {
            vstd::arithmetic::div_mod::lemma_truncate_middle(a as int, k as int, b as int);
        }
        assert(k * b > 0) by (nonlinear_arith)
            requires
                k > 0,
                b > 0,
        ;
    }
}

proof fn lemma_exact_quotient(n: nat, g: nat)
    requires
        g > 0,
        divides(g, n),
    ensures
        (n as int / g as int) * g == n,
{
    let k = choose|k: nat| n == #[trigger] (k * g);
    assert(n as int / g as int == k) by (nonlinear_arith)
        requires
            n == k * g,
            g > 0,
    ;
}

/// Lowest terms keep the value, and their denominator is positive.
pub proof fn lemma_reduced_value(n: int, d: int)
    requires
        d != 0,
    ensures
        reduced(n, d).0 * d == n * reduced(n, d).1,
        reduced(n, d).1 > 0,
{
    let m = magnitude(n);
    let k = magnitude(d);
    let g = gcd_of(m, k);
    lemma_gcd_positive(m, k);
    lemma_gcd_divides(m, k);
    lemma_exact_quotient(m, g);
    lemma_exact_quotient(k, g);
    let top = m as int / g as int;
    let bottom = k as int / g as int;
    assert(bottom > 0) by (nonlinear_arith)
        requires
            bottom * g == k,
            k > 0,
            g > 0,
    ;
    assert(top * k == m * bottom) by (nonlinear_arith)
        requires
            top * g == m,
            bottom * g == k,
    ;
    assert((-top) * k == -(m * bottom)) by (nonlinear_arith)
        requires
            top * k == m * bottom,
    ;
    assert((-top) * (-k) == m * bottom) by (nonlinear_arith)
        requires
            top * k == m * bottom,
    ;
    assert(top * (-k) == -(m * bottom)) by (nonlinear_arith)
        requires
            top * k == m * bottom,
    ;
    assert((-m) * bottom == -(m * bottom)) by (nonlinear_arith);
}

/// Scaling numerator and denominator alike changes nothing in lowest terms.
pub proof fn lemma_reduced_scale(k: int, n: int, d: int)
    requires
        k > 0,
        d > 0,
    ensures
        reduced(k * n, k * d) == reduced(n, d),
{
    let m = magnitude(n);
    assert(magnitude(k * n) == k * m && magnitude(k * d) == k * d && k * d > 0 && ((k * n < 0) == (
    n < 0))) by (nonlinear_arith)
        requires
            k > 0,
            d > 0,
            m == magnitude(n),
    ;
    lemma_gcd_scale(k as nat, m, d as nat);
    let g = gcd_of(m, d as nat);
    lemma_gcd_positive(m, d as nat);
    assert(k * g > 0) by (nonlinear_arith)
        requires
            k > 0,
            g > 0,
    ;
    lemma_gcd_divides(m, d as nat);
    lemma_exact_quotient(m, g);
    lemma_exact_quotient(d as nat, g);
    assert((k * m) / (k * g) == m as int / g as int) by (nonlinear_arith)
        requires
            (m as int / g as int) * g == m,
            k > 0,
            g > 0,
    ;
    assert((k * d) / (k * g) == d / g as int) by (nonlinear_arith)
        requires
            (d / g as int) * g == d,
            k > 0,
            g > 0,
    ;
}

/// Fractions of the same value have the same lowest terms.
pub proof fn lemma_reduced_unique(n1: int, d1: int, n2: int, d2: int)
    requires
        d1 > 0,
        d2 > 0,
        n1 * d2 == n2 * d1,
    ensures
        reduced(n1, d1) == reduced(n2, d2),
{
    lemma_reduced_scale(d2, n1, d1);
    lemma_reduced_scale(d1, n2, d2);
    assert(d2 * n1 == d1 * n2 && d2 * d1 == d1 * d2) by (nonlinear_arith)
        requires
            n1 * d2 == n2 * d1,
    ;
}

/// Euclid's algorithm on magnitudes.
pub fn gcd_u128(a: u128, b: u128) -> (g: u128)
    ensures
        g == gcd_of(a as nat, b as nat),
{
    let mut x: u128 = a;
    let mut y: u128 = b;
    while y != 0
        invariant
            gcd_of(x as nat, y as nat) == gcd_of(a as nat, b as nat),
        decreases y,
    {
        let t: u128 = y;
        y = x % y;
        x = t;
    }
    x
}

fn magnitude_i128(n: i128) -> (m: u128)
    requires
        n > i128::MIN,
    ensures
        m == magnitude(n as int),
{
    if n < 0 {
        (-n) as u128
    } else {
        n as u128
    }
}

/// `n / d` in lowest terms, when it fits.
pub fn reduce(n: i128, d: i128) -> (r: Option<Rational>)
    requires
        n > i128::MIN,
        d > i128::MIN,
    ensures
        r == rational_of(n as int, d as int),
{
    if d == 0 {
        return Some(Rational { num: 0, den: 0 });
    }
    let m: u128 = magnitude_i128(n);
    let k: u128 = magnitude_i128(d);
    let g: u128 = gcd_u128(m, k);
    proof {
        lemma_gcd_positive(m as nat, k as nat);
    }
    let top: u128 = m / g;
    let bottom: u128 = k / g;
    let negative: bool = (n < 0) != (d < 0);
    if bottom > 0x7fff_ffff_ffff_ffff {
        return None;
    }
    if negative {
        if top > 0x8000_0000_0000_0000 {
            return None;
        }
        let value: i128 = -(top as i128);
        Some(Rational { num: value as i64, den: bottom as i64 })
    } else {
        if top > 0x7fff_ffff_ffff_ffff {
            return None;
        }
        Some(Rational { num: top as i64, den: bottom as i64 })
    }
}

/// Whether two times denote the same instant. An undefined time equals only
/// another undefined time.
pub open spec fn same_time(a: Rational, b: Rational) -> bool {
    if a.den <= 0 || b.den <= 0 {
        a.den <= 0 && b.den <= 0
    } else {
        a.num * b.den == b.num * a.den
    }
}

/// Whether `a` lies strictly before `b`. Undefined times are not ordered.
pub open spec fn before(a: Rational, b: Rational) -> bool {
    a.den > 0 && b.den > 0 && a.num * b.den < b.num * a.den
}

/// The later of two times (`a` unless `b` lies after it).
pub open spec fn later_of(a: Rational, b: Rational) -> Rational {
    if before(a, b) {
        b
    } else {
        a
    }
}

/// The earlier of two times (`a` unless `b` lies before it).
pub open spec fn earlier_of(a: Rational, b: Rational) -> Rational {
    if before(b, a) {
        b
    } else {
        a
    }
}

/// The undefined time.
pub open spec fn undefined_time() -> Rational {
    Rational { num: 0, den: 0 }
}

/// The sum of two times, when it is representable; undefined when either is.
pub open spec fn sum_of(a: Rational, b: Rational) -> Option<Rational> {
    if a.den <= 0 || b.den <= 0 {
        Some(undefined_time())
    } else {
        rational_of(a.num * b.den + b.num * a.den, a.den * b.den)
    }
}

/// The difference of two times, when it is representable; undefined when
/// either is.
pub open spec fn difference_of(a: Rational, b: Rational) -> Option<Rational> {
    if a.den <= 0 || b.den <= 0 {
        Some(undefined_time())
    } else {
        rational_of(a.num * b.den - b.num * a.den, a.den * b.den)
    }
}

proof fn lemma_product_bound(x: i64, y: i64)
    ensures
        -0x4000_0000_0000_0000_0000_0000_0000_0000 < x * y
            <= 0x4000_0000_0000_0000_0000_0000_0000_0000,
{
    assert(-0x4000_0000_0000_0000_0000_0000_0000_0000 < x * y
        <= 0x4000_0000_0000_0000_0000_0000_0000_0000) by (nonlinear_arith)
        requires
            -0x8000_0000_0000_0000 <= x <= 0x7fff_ffff_ffff_ffff,
            -0x8000_0000_0000_0000 <= y <= 0x7fff_ffff_ffff_ffff,
    ;
}

proof fn lemma_product_strict(x: i64, y: i64)
    requires
        x != i64::MIN || y != i64::MIN,
    ensures
        -0x4000_0000_0000_0000_0000_0000_0000_0000 < x * y
            < 0x4000_0000_0000_0000_0000_0000_0000_0000,
{
    assert(-0x4000_0000_0000_0000_0000_0000_0000_0000 < x * y
        < 0x4000_0000_0000_0000_0000_0000_0000_0000) by (nonlinear_arith)
        requires
            -0x8000_0000_0000_0000 <= x <= 0x7fff_ffff_ffff_ffff,
            -0x8000_0000_0000_0000 <= y <= 0x7fff_ffff_ffff_ffff,
            x != -0x8000_0000_0000_0000 || y != -0x8000_0000_0000_0000,
    ;
}

fn product(x: i64, y: i64) -> (p: i128)
    ensures
        p == x * y,
        -0x4000_0000_0000_0000_0000_0000_0000_0000 < p
            <= 0x4000_0000_0000_0000_0000_0000_0000_0000,
{
    proof {
        lemma_product_bound(x, y);
    }
    (x as i128) * (y as i128)
}

impl Rational {
    /// The undefined time.
    pub fn null() -> (r: Rational)
        ensures
            r == undefined_time(),
    {
        Rational { num: 0, den: 0 }
    }

    /// The origin of the timeline.
    pub fn zero() -> (r: Rational)
        ensures
            r == (Rational { num: 0, den: 1 }),
    {
        Rational { num: 0, den: 1 }
    }

    /// The time `num / den` in lowest terms.
    pub fn new(num: i64, den: i64) -> (r: Rational)
        requires
            representable(num as int, den as int),
        ensures
            Some(r) == rational_of(num as int, den as int),
    {
        let r = reduce(num as i128, den as i128);
        r.unwrap()
    }

    /// The numerator.
    pub fn numerator(self) -> (n: i64)
        ensures
            n == self.num,
    {
        self.num
    }

    /// The denominator.
    pub fn denominator(self) -> (d: i64)
        ensures
            d == self.den,
    {
        self.den
    }

    /// Whether the numerator is zero.
    pub fn is_null(self) -> (b: bool)
        ensures
            b == (self.num == 0),
    {
        self.num == 0
    }

    /// Whether both times denote the same instant.
    pub fn same(self, other: Rational) -> (b: bool)
        ensures
            b == same_time(self, other),
    {
        if self.den <= 0 || other.den <= 0 {
            self.den <= 0 && other.den <= 0
        } else {
            product(self.num, other.den) == product(other.num, self.den)
        }
    }

    /// Whether this time lies strictly before `other`.
    pub fn is_before(self, other: Rational) -> (b: bool)
        ensures
            b == before(self, other),
    {
        self.den > 0 && other.den > 0 && product(self.num, other.den) < product(
            other.num,
            self.den,
        )
    }

    /// The later of the two times.
    pub fn max(self, other: Rational) -> (r: Rational)
        ensures
            r == later_of(self, other),
    {
        if self.is_before(other) {
            other
        } else {
            self
        }
    }

    /// The earlier of the two times.
    pub fn min(self, other: Rational) -> (r: Rational)
        ensures
            r == earlier_of(self, other),
    {
        if other.is_before(self) {
            other
        } else {
            self
        }
    }

    /// The sum; `None` when it leaves the 64-bit representation.
    pub fn checked_add(self, other: Rational) -> (r: Option<Rational>)
        ensures
            r == sum_of(self, other),
    {
        if self.den <= 0 || other.den <= 0 {
            return Some(Rational::null());
        }
        proof {
            lemma_product_strict(self.num, other.den);
            lemma_product_strict(other.num, self.den);
        }
        let n: i128 = product(self.num, other.den) + product(other.num, self.den);
        reduce(n, product(self.den, other.den))
    }

    /// The difference; `None` when it leaves the 64-bit representation.
    pub fn checked_sub(self, other: Rational) -> (r: Option<Rational>)
        ensures
            r == difference_of(self, other),
    {
        if self.den <= 0 || other.den <= 0 {
            return Some(Rational::null());
        }
        proof {
            lemma_product_strict(self.num, other.den);
            lemma_product_strict(other.num, self.den);
        }
        let n: i128 = product(self.num, other.den) - product(other.num, self.den);
        reduce(n, product(self.den, other.den))
    }
}

proof fn lemma_cross_terms(an: int, ad: int, bn: int, bd: int, dn: int, dd: int)
    requires
        dn * (ad * bd) == (an * bd - bn * ad) * dd,
    ensures
        (dn * bd + bn * dd) * ad == an * (dd * bd),
{
    assert(dn * (ad * bd) == dn * bd * ad) by (nonlinear_arith);
    assert((an * bd - bn * ad) * dd == an * bd * dd - bn * ad * dd) by (nonlinear_arith);
    assert((dn * bd + bn * dd) * ad == dn * bd * ad + bn * dd * ad) by (nonlinear_arith);
    assert(bn * dd * ad == bn * ad * dd) by (nonlinear_arith);
    assert(an * (dd * bd) == an * bd * dd) by (nonlinear_arith);
}

/// A sum of a difference gives the minuend back.
pub proof fn lemma_sum_of_difference(a: Rational, b: Rational)
    requires
        a.den > 0,
        b.den > 0,
        difference_of(a, b) is Some,
    ensures
        ({
            let d = difference_of(a, b).unwrap();
            &&& d.den > 0
            &&& sum_of(d, b) == rational_of(
                a.num as int,
                a.den as int,
            )
            &&& sum_of(b, d) == rational_of(
                a.num as int,
                a.den as int,
            )
        }),
{
    let n = a.num * b.den - b.num * a.den;
    let k = a.den * b.den;
    assert(k > 0) by (nonlinear_arith)
        requires
            k == a.den * b.den,
            a.den > 0,
            b.den > 0,
    ;
    lemma_reduced_value(n, k);
    let d = difference_of(a, b).unwrap();
    let top = d.num * b.den + b.num * d.den;
    let bottom = d.den * b.den;
    assert(bottom > 0) by (nonlinear_arith)
        requires
            bottom == d.den * b.den,
            d.den > 0,
            b.den > 0,
    ;
    lemma_cross_terms(
        a.num as int,
        a.den as int,
        b.num as int,
        b.den as int,
        d.num as int,
        d.den as int,
    );
    lemma_reduced_unique(top, bottom, a.num as int, a.den as int);
    assert(b.num * d.den + d.num * b.den == top && b.den * d.den == bottom) by (nonlinear_arith)
        requires
            top == d.num * b.den + b.num * d.den,
            bottom == d.den * b.den,
    ;
}

} // verus!
