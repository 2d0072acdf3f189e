//! Sums and differences of times, taken together.

use crate::rational::Rational;
use vstd::prelude::*;

verus! {

/// Whether `x` is worth `n / d`.
pub open spec fn worth(x: Rational, n: int, d: int) -> bool {
    x.den > 0 && d > 0 && x.num * d == n * x.den
}

proof fn lemma_fraction(n: int, d: int)
    requires
        d > 0,
        crate::rational::rational_of(n, d) is Some,
    ensures
        worth(crate::rational::rational_of(n, d).unwrap(), n, d),
{
    crate::rational::lemma_reduced_value(n, d);
}

/// A product of positive numbers is positive.
pub proof fn lemma_positive(a: int, b: int)
    requires
        a > 0,
        b > 0,
    ensures
        a * b > 0,
{
    assert(a * b > 0) by (nonlinear_arith)
        requires
            a > 0,
            b > 0,
    ;
}

proof fn lemma_swap(a: int, b: int, c: int, d: int)
    ensures
        (a * b) * (c * d) == (a * c) * (b * d),
{
    assert((a * b) * (c * d) == (a * c) * (b * d)) by (nonlinear_arith);
}

proof fn lemma_spread(p: int, q: int, r: int)
    ensures
        (p + q) * r == p * r + q * r,
        (p - q) * r == p * r - q * r,
{
    assert((p + q) * r == p * r + q * r) by (nonlinear_arith);
    assert((p - q) * r == p * r - q * r) by (nonlinear_arith);
}

/// The four products of a cross multiplication, regrouped.
proof fn lemma_regroup(xn: int, xd: int, n: int, d: int, yn: int, yd: int, m: int, e: int)
    requires
        xn * d == n * xd,
        yn * e == m * yd,
    ensures
        (xn * yd) * (d * e) == (n * e) * (xd * yd),
        (yn * xd) * (d * e) == (m * d) * (xd * yd),
{
    lemma_swap(xn, yd, d, e);
    assert(yd * e == e * yd) by (nonlinear_arith);
    lemma_swap(n, xd, e, yd);
    assert(d * e == e * d) by (nonlinear_arith);
    lemma_swap(yn, xd, e, d);
    assert(xd * d == d * xd) by (nonlinear_arith);
    lemma_swap(m, yd, d, xd);
    assert(yd * xd == xd * yd) by (nonlinear_arith);
}

/// A sum depends on what its terms are worth alone.
pub proof fn lemma_sum_worth(x: Rational, n: int, d: int, y: Rational, m: int, e: int)
    requires
        worth(x, n, d),
        worth(y, m, e),
    ensures
        crate::rational::sum_of(x, y) == crate::rational::rational_of(n * e + m * d, d * e),
{
    let xn = x.num as int;
    let xd = x.den as int;
    let yn = y.num as int;
    let yd = y.den as int;
    lemma_positive(xd, yd);
    lemma_positive(d, e);
    lemma_regroup(xn, xd, n, d, yn, yd, m, e);
    lemma_spread(xn * yd, yn * xd, d * e);
    lemma_spread(n * e, m * d, xd * yd);
    crate::rational::lemma_reduced_unique(xn * yd + yn * xd, xd * yd, n * e + m * d, d * e);
}

/// A difference depends on what its terms are worth alone.
pub proof fn lemma_difference_worth(x: Rational, n: int, d: int, y: Rational, m: int, e: int)
    requires
        worth(x, n, d),
        worth(y, m, e),
    ensures
        crate::rational::difference_of(x, y) == crate::rational::rational_of(
            n * e - m * d,
            d * e,
        ),
{
    let xn = x.num as int;
    let xd = x.den as int;
    let yn = y.num as int;
    let yd = y.den as int;
    lemma_positive(xd, yd);
    lemma_positive(d, e);
    lemma_regroup(xn, xd, n, d, yn, yd, m, e);
    lemma_spread(xn * yd, yn * xd, d * e);
    lemma_spread(n * e, m * d, xd * yd);
    crate::rational::lemma_reduced_unique(xn * yd - yn * xd, xd * yd, n * e - m * d, d * e);
}

/// What ends at `b` and starts at `a` ends at `b + d` when it starts at
/// `a + d`.
pub proof fn lemma_shifted_end(a: Rational, b: Rational, d: Rational)
    requires
        a.den > 0,
        b.den > 0,
        d.den > 0,
        crate::rational::sum_of(a, d) is Some,
        crate::rational::difference_of(b, a) is Some,
    ensures
        crate::rational::sum_of(
            crate::rational::sum_of(a, d).unwrap(),
            crate::rational::difference_of(b, a).unwrap(),
        ) == crate::rational::sum_of(b, d),
{
    let (an, ad) = (a.num as int, a.den as int);
    let (bn, bd) = (b.num as int, b.den as int);
    let (dn, dd) = (d.num as int, d.den as int);
    lemma_positive(ad, dd);
    lemma_positive(bd, ad);
    lemma_positive(bd, dd);
    let n = an * dd + dn * ad;
    let m = bn * ad - an * bd;
    lemma_fraction(n, ad * dd);
    lemma_fraction(m, bd * ad);
    lemma_sum_worth(
        crate::rational::sum_of(a, d).unwrap(),
        n,
        ad * dd,
        crate::rational::difference_of(b, a).unwrap(),
        m,
        bd * ad,
    );
    lemma_positive(ad * dd, bd * ad);
    let top = n * (bd * ad) + m * (ad * dd);
    let k = bn * dd + dn * bd;
    assert(top == (ad * ad) * k) by {
        assert(n * (bd * ad) == an * dd * bd * ad + dn * ad * bd * ad) by (nonlinear_arith)
            requires
                n == an * dd + dn * ad,
        ;
        assert(m * (ad * dd) == bn * ad * ad * dd - an * bd * ad * dd) by (nonlinear_arith)
            requires
                m == bn * ad - an * bd,
        ;
        assert(an * dd * bd * ad == an * bd * ad * dd) by (nonlinear_arith);
        assert((ad * ad) * k == dn * ad * bd * ad + bn * ad * ad * dd) by (nonlinear_arith)
            requires
                k == bn * dd + dn * bd,
        ;
    }
    assert(top * (bd * dd) == k * ((ad * dd) * (bd * ad))) by {
        assert((ad * ad) * k * (bd * dd) == k * ((ad * dd) * (bd * ad))) by (nonlinear_arith);
    }
    crate::rational::lemma_reduced_unique(top, (ad * dd) * (bd * ad), k, bd * dd);
}

/// What ends at `b` and is shortened by `d` from a start at `a` starts at
/// `a + d`.
pub proof fn lemma_shortened_start(a: Rational, b: Rational, d: Rational)
    requires
        a.den > 0,
        b.den > 0,
        d.den > 0,
        crate::rational::difference_of(b, a) is Some,
        crate::rational::difference_of(
            crate::rational::difference_of(b, a).unwrap(),
            d,
        ) is Some,
    ensures
        crate::rational::difference_of(
            b,
            crate::rational::difference_of(
                crate::rational::difference_of(b, a).unwrap(),
                d,
            ).unwrap(),
        ) == crate::rational::sum_of(a, d),
{
    let (an, ad) = (a.num as int, a.den as int);
    let (bn, bd) = (b.num as int, b.den as int);
    let (dn, dd) = (d.num as int, d.den as int);
    lemma_positive(bd, ad);
    lemma_positive(ad, dd);
    let m = bn * ad - an * bd;
    lemma_fraction(m, bd * ad);
    let length = crate::rational::difference_of(b, a).unwrap();
    lemma_difference_worth(length, m, bd * ad, d, dn, dd);
    lemma_positive(bd * ad, dd);
    let n = m * dd - dn * (bd * ad);
    let e = (bd * ad) * dd;
    let shorter = crate::rational::difference_of(length, d).unwrap();
    lemma_fraction(n, e);
    lemma_difference_worth(b, bn, bd, shorter, n, e);
    lemma_positive(bd, e);
    let top = bn * e - n * bd;
    let k = an * dd + dn * ad;
    assert(top == (bd * bd) * k) by {
        assert(bn * e == bn * bd * ad * dd) by (nonlinear_arith)
            requires
                e == (bd * ad) * dd,
        ;
        lemma_spread(m * dd, dn * (bd * ad), bd);
        assert(m * dd * bd == bn * bd * ad * dd - an * bd * dd * bd) by (nonlinear_arith)
            requires
                m == bn * ad - an * bd,
        ;
        lemma_spread(an * dd, dn * ad, bd * bd);
        assert((bd * bd) * k == k * (bd * bd)) by (nonlinear_arith);
        assert(an * dd * (bd * bd) == an * bd * dd * bd) by (nonlinear_arith);
        assert(dn * ad * (bd * bd) == dn * (bd * ad) * bd) by (nonlinear_arith);
    }
    assert(top * (ad * dd) == k * (bd * e)) by {
        assert((bd * bd) * k * (ad * dd) == k * (bd * ((bd * ad) * dd))) by (nonlinear_arith);
    }
    crate::rational::lemma_reduced_unique(top, bd * e, k, ad * dd);
}

/// What starts at `a` and is lengthened by `d` from an end at `b` ends at
/// `b + d`.
pub proof fn lemma_lengthened_end(a: Rational, b: Rational, d: Rational)
    requires
        a.den > 0,
        b.den > 0,
        d.den > 0,
        crate::rational::difference_of(b, a) is Some,
        crate::rational::sum_of(crate::rational::difference_of(b, a).unwrap(), d) is Some,
    ensures
        crate::rational::sum_of(
            a,
            crate::rational::sum_of(crate::rational::difference_of(b, a).unwrap(), d).unwrap(),
        ) == crate::rational::sum_of(b, d),
{
    let (an, ad) = (a.num as int, a.den as int);
    let (bn, bd) = (b.num as int, b.den as int);
    let (dn, dd) = (d.num as int, d.den as int);
    lemma_positive(bd, ad);
    lemma_positive(bd, dd);
    let m = bn * ad - an * bd;
    lemma_fraction(m, bd * ad);
    let length = crate::rational::difference_of(b, a).unwrap();
    lemma_sum_worth(length, m, bd * ad, d, dn, dd);
    lemma_positive(bd * ad, dd);
    let n = m * dd + dn * (bd * ad);
    let e = (bd * ad) * dd;
    let longer = crate::rational::sum_of(length, d).unwrap();
    lemma_fraction(n, e);
    lemma_sum_worth(a, an, ad, longer, n, e);
    lemma_positive(ad, e);
    let top = an * e + n * ad;
    let k = bn * dd + dn * bd;
    assert(top == (ad * ad) * k) by {
        assert(an * e == an * bd * ad * dd) by (nonlinear_arith)
            requires
                e == (bd * ad) * dd,
        ;
        lemma_spread(m * dd, dn * (bd * ad), ad);
        assert(m * dd * ad == bn * ad * ad * dd - an * bd * ad * dd) by (nonlinear_arith)
            requires
                m == bn * ad - an * bd,
        ;
        lemma_spread(bn * dd, dn * bd, ad * ad);
        assert((ad * ad) * k == k * (ad * ad)) by (nonlinear_arith);
        assert(bn * dd * (ad * ad) == bn * ad * ad * dd) by (nonlinear_arith);
        assert(dn * bd * (ad * ad) == dn * (bd * ad) * ad) by (nonlinear_arith);
    }
    assert(top * (bd * dd) == k * (ad * e)) by {
        assert((ad * ad) * k * (bd * dd) == k * (ad * ((bd * ad) * dd))) by (nonlinear_arith);
    }
    crate::rational::lemma_reduced_unique(top, ad * e, k, bd * dd);
}

proof fn lemma_less(x: int, y: int, k: int)
    requires
        x * k == y * k,
        k > 0,
    ensures
        x == y,
{
    assert(x == y) by (nonlinear_arith)
        requires
            x * k == y * k,
            k > 0,
    ;
}

/// What is as far from `b` as `c` is from `a`, `b` being where `a` is, is
/// where `c` is.
pub proof fn lemma_same_way(a: Rational, b: Rational, c: Rational)
    requires
        a.den > 0,
        c.den > 0,
        crate::rational::same_time(a, b),
        crate::rational::difference_of(c, a) is Some,
        crate::rational::sum_of(b, crate::rational::difference_of(c, a).unwrap()) is Some,
    ensures
        crate::rational::same_time(
            crate::rational::sum_of(b, crate::rational::difference_of(c, a).unwrap()).unwrap(),
            c,
        ),
{
    let (an, ad) = (a.num as int, a.den as int);
    let (cn, cd) = (c.num as int, c.den as int);
    lemma_positive(cd, ad);
    let n = cn * ad - an * cd;
    lemma_fraction(n, cd * ad);
    let way = crate::rational::difference_of(c, a).unwrap();
    lemma_sum_worth(b, an, ad, way, n, cd * ad);
    lemma_positive(ad, cd * ad);
    let top = an * (cd * ad) + n * ad;
    let bottom = ad * (cd * ad);
    lemma_fraction(top, bottom);
    let s = crate::rational::sum_of(b, way).unwrap();
    let k = ad * ad;
    lemma_positive(ad, ad);
    assert(top == cn * k) by {
        lemma_spread(cn * ad, an * cd, ad);
        assert(an * (cd * ad) == an * cd * ad) by (nonlinear_arith);
        assert(cn * ad * ad == cn * (ad * ad)) by (nonlinear_arith);
    }
    assert(bottom == cd * k) by (nonlinear_arith)
        requires
            bottom == ad * (cd * ad),
            k == ad * ad,
    ;
    assert(s.num * bottom == (s.num * cd) * k) by (nonlinear_arith)
        requires
            bottom == cd * k,
    ;
    assert(top * s.den == (cn * s.den) * k) by (nonlinear_arith)
        requires
            top == cn * k,
    ;
    lemma_less(s.num * cd, cn * s.den, k);
}

/// What ends at `b` and starts at `a` ends, when it starts at `c`, where
/// what stood at `b` comes to that goes as far.
pub proof fn lemma_moved_end(a: Rational, b: Rational, c: Rational, r: Rational)
    requires
        a.den > 0,
        b.den > 0,
        c.den > 0,
        crate::rational::same_time(b, r),
        crate::rational::difference_of(b, a) is Some,
        crate::rational::difference_of(c, a) is Some,
    ensures
        crate::rational::sum_of(c, crate::rational::difference_of(b, a).unwrap())
            == crate::rational::sum_of(r, crate::rational::difference_of(c, a).unwrap()),
{
    let (an, ad) = (a.num as int, a.den as int);
    let (bn, bd) = (b.num as int, b.den as int);
    let (cn, cd) = (c.num as int, c.den as int);
    lemma_positive(bd, ad);
    lemma_positive(cd, ad);
    let m = bn * ad - an * bd;
    let n = cn * ad - an * cd;
    lemma_fraction(m, bd * ad);
    lemma_fraction(n, cd * ad);
    let length = crate::rational::difference_of(b, a).unwrap();
    let way = crate::rational::difference_of(c, a).unwrap();
    lemma_sum_worth(c, cn, cd, length, m, bd * ad);
    lemma_sum_worth(r, bn, bd, way, n, cd * ad);
    let x = cn * (bd * ad) + m * cd;
    let y = bn * (cd * ad) + n * bd;
    assert(x == y) by {
        lemma_spread(bn * ad, an * bd, cd);
        lemma_spread(cn * ad, an * cd, bd);
        assert(cn * (bd * ad) == cn * ad * bd) by (nonlinear_arith);
        assert(bn * (cd * ad) == bn * ad * cd) by (nonlinear_arith);
        assert(an * bd * cd == an * cd * bd) by (nonlinear_arith);
    }
    assert(cd * (bd * ad) == bd * (cd * ad)) by (nonlinear_arith);
}

/// Times in lowest terms that are the same are equal.
pub proof fn lemma_canonical_equal(a: Rational, b: Rational)
    requires
        crate::spans::canonical(a),
        crate::spans::canonical(b),
        crate::rational::same_time(a, b),
    ensures
        a == b,
{
    crate::rational::lemma_reduced_unique(
        a.num as int,
        a.den as int,
        b.num as int,
        b.den as int,
    );
}

/// Going to `a` from anywhere lands at `a`.
pub proof fn lemma_there(a: Rational, b: Rational)
    requires
        crate::spans::canonical(a),
        b.den > 0,
        crate::rational::difference_of(a, b) is Some,
    ensures
        crate::rational::sum_of(b, crate::rational::difference_of(a, b).unwrap()) == Some(a),
{
    crate::rational::lemma_sum_of_difference(a, b);
}

} // verus!
