//! What sums, differences and frame times mean: exact distances on the
//! timeline.

use crate::rational::Rational;
use vstd::prelude::*;

verus! {

/// Whether `b` lies exactly `d` behind `a`.
pub open spec fn later_by(a: Rational, b: Rational, d: Rational) -> bool {
    &&& a.den > 0
    &&& b.den > 0
    &&& d.den > 0
    &&& (b.num * a.den - a.num * b.den) * d.den == d.num * (a.den * b.den)
}

/// Whether `t` is the instant at which frame `frame` starts, one frame taking
/// `tb.0 / tb.1` seconds.
pub open spec fn on_frame(t: Rational, frame: int, tb: (i64, i64)) -> bool {
    t.den > 0 && tb.1 > 0 && t.num * tb.1 == frame * tb.0 * t.den
}

proof fn lemma_quotient(n: int, d: int)
    requires
        d > 0,
        crate::rational::rational_of(n, d) is Some,
    ensures
        crate::time_laws::worth(crate::rational::rational_of(n, d).unwrap(), n, d),
{
    crate::rational::lemma_reduced_value(n, d);
}

/// A sum lies behind its first term by its second, and is given whenever some
/// 64-bit time lies there.
pub proof fn lemma_sum_is_later(a: Rational, d: Rational, b: Rational)
    requires
        a.den > 0,
        d.den > 0,
    ensures
        crate::rational::sum_of(a, d) is Some ==> later_by(
            a,
            crate::rational::sum_of(a, d).unwrap(),
            d,
        ),
        later_by(a, b, d) ==> crate::rational::sum_of(a, d) is Some
            && crate::rational::same_time(crate::rational::sum_of(a, d).unwrap(), b),
{
    let (an, ad) = (a.num as int, a.den as int);
    let (dn, dd) = (d.num as int, d.den as int);
    crate::time_laws::lemma_positive(ad, dd);
    let n = an * dd + dn * ad;
    if crate::rational::sum_of(a, d) is Some {
        lemma_quotient(n, ad * dd);
        let s = crate::rational::sum_of(a, d).unwrap();
        let (sn, sd) = (s.num as int, s.den as int);
        lemma_behind(an, ad, dn, dd, sn, sd);
    }
    if later_by(a, b, d) {
        let (bn, bd) = (b.num as int, b.den as int);
        lemma_ahead(an, ad, dn, dd, bn, bd);
        lemma_shared(n, ad * dd, b);
    }
}

/// A difference is how far its first term lies behind its second, and is
/// given whenever some 64-bit length is that far.
pub proof fn lemma_difference_is_way(b: Rational, a: Rational, d: Rational)
    requires
        a.den > 0,
        b.den > 0,
    ensures
        crate::rational::difference_of(b, a) is Some ==> later_by(
            a,
            b,
            crate::rational::difference_of(b, a).unwrap(),
        ),
        later_by(a, b, d) ==> crate::rational::difference_of(b, a) is Some
            && crate::rational::same_time(crate::rational::difference_of(b, a).unwrap(), d),
{
    let (an, ad) = (a.num as int, a.den as int);
    let (bn, bd) = (b.num as int, b.den as int);
    crate::time_laws::lemma_positive(bd, ad);
    let n = bn * ad - an * bd;
    assert(bd * ad == ad * bd) by (nonlinear_arith);
    if crate::rational::difference_of(b, a) is Some {
        lemma_quotient(n, bd * ad);
    }
    if later_by(a, b, d) {
        lemma_shared(n, bd * ad, d);
    }
}

/// A subtrahend lies as far before its minuend as the difference says.
pub proof fn lemma_difference_is_earlier(b: Rational, d: Rational, a: Rational)
    requires
        b.den > 0,
        d.den > 0,
    ensures
        crate::rational::difference_of(b, d) is Some ==> later_by(
            crate::rational::difference_of(b, d).unwrap(),
            b,
            d,
        ),
        later_by(a, b, d) ==> crate::rational::difference_of(b, d) is Some
            && crate::rational::same_time(crate::rational::difference_of(b, d).unwrap(), a),
{
    if crate::rational::difference_of(b, d) is Some {
        let r = crate::rational::difference_of(b, d).unwrap();
        lemma_difference_is_way(b, d, r);
        lemma_exchanged(d, b, r);
    }
    if later_by(a, b, d) {
        lemma_exchanged(a, b, d);
        lemma_difference_is_way(b, d, a);
    }
}

/// What lies `d` behind `a` lies `a` behind `d`.
proof fn lemma_exchanged(a: Rational, b: Rational, d: Rational)
    requires
        later_by(a, b, d),
    ensures
        later_by(d, b, a),
{
    let (an, ad) = (a.num as int, a.den as int);
    let (bn, bd) = (b.num as int, b.den as int);
    let (dn, dd) = (d.num as int, d.den as int);
    assert((bn * ad - an * bd) * dd == bn * ad * dd - an * bd * dd) by (nonlinear_arith);
    assert((bn * dd - dn * bd) * ad == bn * ad * dd - dn * bd * ad) by (nonlinear_arith);
    assert(dn * (ad * bd) == dn * bd * ad) by (nonlinear_arith);
    assert(an * (dd * bd) == an * bd * dd) by (nonlinear_arith);
}

proof fn lemma_behind(an: int, ad: int, dn: int, dd: int, sn: int, sd: int)
    requires
        ad > 0,
        sn * (ad * dd) == (an * dd + dn * ad) * sd,
    ensures
        (sn * ad - an * sd) * dd == dn * (ad * sd),
{
    assert((sn * ad - an * sd) * dd == sn * (ad * dd) - an * dd * sd) by (nonlinear_arith);
    assert((an * dd + dn * ad) * sd == an * dd * sd + dn * (ad * sd)) by (nonlinear_arith);
}

proof fn lemma_ahead(an: int, ad: int, dn: int, dd: int, bn: int, bd: int)
    requires
        (bn * ad - an * bd) * dd == dn * (ad * bd),
    ensures
        bn * (ad * dd) == (an * dd + dn * ad) * bd,
{
    assert((bn * ad - an * bd) * dd == bn * (ad * dd) - an * dd * bd) by (nonlinear_arith);
    assert((an * dd + dn * ad) * bd == an * dd * bd + dn * (ad * bd)) by (nonlinear_arith);
}

/// A fraction that some 64-bit time is worth is representable.
pub proof fn lemma_shared(n: int, d: int, t: Rational)
    requires
        crate::time_laws::worth(t, n, d),
    ensures
        crate::rational::representable(n, d),
        crate::rational::rational_of(n, d) is Some,
        crate::rational::same_time(crate::rational::rational_of(n, d).unwrap(), t),
{
    let (tn, td) = (t.num as int, t.den as int);
    crate::rational::lemma_reduced_unique(n, d, tn, td);
    crate::rational::lemma_reduced_value(tn, td);
    let m = crate::rational::magnitude(tn);
    let k = crate::rational::magnitude(td);
    let g = crate::rational::gcd_of(m, k) as int;
    crate::rational::lemma_gcd_positive(m, k);
    assert(0 <= m as int / g <= m && 0 <= k as int / g <= k) by (nonlinear_arith)
        requires
            g > 0,
            m >= 0,
            k >= 0,
    ;
}

/// The time of a frame is where the frame starts, whenever some 64-bit time
/// is.
pub proof fn lemma_frame_time(ts: i64, tb: (i64, i64), t: Rational)
    requires
        tb.1 > 0,
        crate::rational::representable(ts * tb.0, tb.1 as int) || on_frame(t, ts as int, tb),
    ensures
        on_frame(crate::timebase::time_of(ts, tb), ts as int, tb),
        on_frame(t, ts as int, tb) ==> crate::rational::same_time(
            crate::timebase::time_of(ts, tb),
            t,
        ),
{
    if on_frame(t, ts as int, tb) {
        lemma_shared(ts * tb.0, tb.1 as int, t);
    }
    crate::rational::lemma_reduced_value(ts * tb.0, tb.1 as int);
}

/// A time on a frame is read back as that frame.
pub proof fn lemma_frame_read_back(t: Rational, frame: i64, tb: (i64, i64))
    requires
        tb.0 > 0,
        on_frame(t, frame as int, tb),
    ensures
        crate::timebase::timestamp_of(t, tb) == frame,
{
    let n = t.num * tb.1;
    let d = t.den * tb.0;
    crate::time_laws::lemma_positive(t.den as int, tb.0 as int);
    assert(n == frame * d) by (nonlinear_arith)
        requires
            n == frame * tb.0 * t.den,
            d == t.den * tb.0,
    ;
    crate::timebase::lemma_rounding(n, d);
    let q = crate::timebase::rounded_quotient(n, d);
    assert(q == frame) by (nonlinear_arith)
        requires
            d > 0,
            n == frame * d,
            2 * (q * d - n) <= d,
            2 * (n - q * d) <= d,
    ;
}

/// Of two defined times exactly one is the earlier or both are the same
/// instant, as the way between them says.
pub proof fn lemma_ordered(a: Rational, b: Rational, d: Rational)
    requires
        later_by(a, b, d),
    ensures
        crate::rational::before(a, b) <==> d.num > 0,
        crate::rational::same_time(a, b) <==> d.num == 0,
        crate::rational::before(b, a) <==> d.num < 0,
{
    let n = b.num * a.den - a.num * b.den;
    let k = a.den * b.den;
    crate::time_laws::lemma_positive(a.den as int, b.den as int);
    let (dn, dd) = (d.num as int, d.den as int);
    assert((n > 0 <==> dn > 0) && (n == 0 <==> dn == 0)) by (nonlinear_arith)
        requires
            n * dd == dn * k,
            dd > 0,
            k > 0,
    ;
}

/// The later of two times is one of them, and neither lies behind it; the
/// earlier is one of them, and neither lies before it.
pub proof fn lemma_bounds(a: Rational, b: Rational)
    requires
        a.den > 0,
        b.den > 0,
    ensures
        ({
            let l = crate::rational::later_of(a, b);
            let e = crate::rational::earlier_of(a, b);
            &&& l == a || l == b
            &&& e == a || e == b
            &&& !crate::rational::before(l, a) && !crate::rational::before(l, b)
            &&& !crate::rational::before(a, e) && !crate::rational::before(b, e)
        }),
{
}

/// Whether `t`, in lowest terms, is the instant at which frame `frame` starts.
pub open spec fn frame_at(t: Rational, frame: int, tb: (i64, i64)) -> bool {
    crate::spans::canonical(t) && on_frame(t, frame, tb)
}

/// The time of a frame is the one time in lowest terms at which the frame
/// starts.
pub proof fn lemma_frame_at(t: Rational, frame: i64, tb: (i64, i64))
    requires
        frame_at(t, frame as int, tb),
    ensures
        crate::timebase::time_of(frame, tb) == t,
{
    lemma_frame_time(frame, tb, t);
    lemma_shared(frame * tb.0, tb.1 as int, t);
    crate::spans::lemma_frame_times_are_canonical(frame, tb);
    crate::time_laws::lemma_canonical_equal(crate::timebase::time_of(frame, tb), t);
}

/// The way between two frames is as many frames as lie between them.
pub proof fn lemma_frames_between(a: Rational, i: int, b: Rational, o: int, d: Rational, tb: (i64, i64))
    requires
        on_frame(a, i, tb),
        on_frame(b, o, tb),
        later_by(a, b, d),
    ensures
        on_frame(d, o - i, tb),
{
    let (an, ad) = (a.num as int, a.den as int);
    let (bn, bd) = (b.num as int, b.den as int);
    let (dn, dd) = (d.num as int, d.den as int);
    let (t, u) = (tb.0 as int, tb.1 as int);
    let k = ad * bd;
    crate::time_laws::lemma_positive(ad, bd);
    let n = bn * ad - an * bd;
    assert(n * u == (bn * u) * ad - (an * u) * bd) by (nonlinear_arith)
        requires
            n == bn * ad - an * bd,
    ;
    assert((o * t * bd) * ad == (o * t) * k && (i * t * ad) * bd == (i * t) * k)
        by (nonlinear_arith)
        requires
            k == ad * bd,
    ;
    assert((o * t) * k - (i * t) * k == ((o - i) * t) * k) by (nonlinear_arith);
    let w = (o - i) * t;
    assert(n * u == w * k);
    assert(dn * u == w * dd) by (nonlinear_arith)
        requires
            n * dd == dn * k,
            n * u == w * k,
            k > 0,
    ;
}

/// Two ways between the same instants are equally long, so one may stand for
/// the other.
pub proof fn lemma_same_length(a: Rational, b: Rational, d: Rational, e: Rational, c: Rational)
    requires
        later_by(a, b, d),
        later_by(a, b, e),
        c.den > 0,
        crate::rational::sum_of(c, d) is Some,
    ensures
        later_by(c, crate::rational::sum_of(c, d).unwrap(), e),
{
    let f = crate::rational::sum_of(c, d).unwrap();
    lemma_sum_is_later(c, d, f);
    let n = b.num * a.den - a.num * b.den;
    let k = a.den * b.den;
    crate::time_laws::lemma_positive(a.den as int, b.den as int);
    let (dn, dd) = (d.num as int, d.den as int);
    let (en, ed) = (e.num as int, e.den as int);
    assert(dn * ed == en * dd) by (nonlinear_arith)
        requires
            n * dd == dn * k,
            n * ed == en * k,
            k > 0,
    ;
    let m = f.num * c.den - c.num * f.den;
    let l = c.den * f.den;
    assert(m * ed == en * l) by (nonlinear_arith)
        requires
            m * dd == dn * l,
            dn * ed == en * dd,
            dd > 0,
    ;
}

/// Two times on frames are the same instant exactly when they are on the same
/// frame.
pub proof fn lemma_same_frame(a: Rational, i: int, b: Rational, j: int, tb: (i64, i64))
    requires
        tb.0 > 0,
        on_frame(a, i, tb),
        on_frame(b, j, tb),
    ensures
        crate::rational::same_time(a, b) <==> i == j,
        crate::rational::before(a, b) <==> i < j,
{
    let (an, ad) = (a.num as int, a.den as int);
    let (bn, bd) = (b.num as int, b.den as int);
    let (t, u) = (tb.0 as int, tb.1 as int);
    let k = t * ad * bd;
    crate::time_laws::lemma_positive(t, ad);
    crate::time_laws::lemma_positive(t * ad, bd);
    assert((an * bd) * u == i * k) by (nonlinear_arith)
        requires
            an * u == i * t * ad,
            k == t * ad * bd,
    ;
    assert((bn * ad) * u == j * k) by (nonlinear_arith)
        requires
            bn * u == j * t * bd,
            k == t * ad * bd,
    ;
    let (x, y) = (an * bd, bn * ad);
    assert((x == y <==> i == j) && (x < y <==> i < j)) by (nonlinear_arith)
        requires
            x * u == i * k,
            y * u == j * k,
            u > 0,
            k > 0,
    ;
}

/// A timestamp is a nearest one to its time, and a time or a timebase that is
/// undefined has timestamp 0.
pub proof fn lemma_timestamp_nearest(r: Rational, tb: (i64, i64))
    ensures
        r.den == 0 || tb.0 == 0 || tb.1 == 0 ==> crate::timebase::timestamp_of(r, tb) == 0,
        r.den != 0 && tb.0 != 0 && tb.1 != 0 ==> {
            let n = r.num * tb.1;
            let d = r.den * tb.0;
            let q = crate::timebase::rounded_quotient(n, d);
            &&& i64::MIN <= q <= i64::MAX ==> crate::timebase::timestamp_of(r, tb) == q
            &&& 2 * (q * d - n) <= (if d < 0 {
                -d
            } else {
                d
            })
            &&& 2 * (n - q * d) <= (if d < 0 {
                -d
            } else {
                d
            })
        },
{
    if r.den != 0 && tb.0 != 0 && tb.1 != 0 {
        let d = r.den * tb.0;
        assert(d != 0) by (nonlinear_arith)
            requires
                d == r.den * tb.0,
                r.den != 0,
                tb.0 != 0,
        ;
        crate::timebase::lemma_rounding(r.num * tb.1, d);
    }
}

/// The time of a timestamp is the timestamp times the timebase, in whatever
/// signs the timebase is written.
pub proof fn lemma_timestamp_time(ts: i64, tb: (i64, i64))
    requires
        tb.1 != 0,
        crate::rational::representable(ts * tb.0, tb.1 as int),
    ensures
        crate::timebase::time_of(ts, tb).den > 0,
        crate::timebase::time_of(ts, tb).num * tb.1 == ts * tb.0 * crate::timebase::time_of(
            ts,
            tb,
        ).den,
{
    crate::rational::lemma_reduced_value(ts * tb.0, tb.1 as int);
}

/// What is undefined stays so in sums and differences, is the same instant as
/// nothing but another undefined time, and has no place in the order.
pub proof fn lemma_undefined(a: Rational, b: Rational)
    requires
        a.den <= 0 || b.den <= 0,
    ensures
        crate::rational::sum_of(a, b) == Some(Rational { num: 0, den: 0 }),
        crate::rational::difference_of(a, b) == Some(Rational { num: 0, den: 0 }),
        crate::rational::same_time(a, b) <==> a.den <= 0 && b.den <= 0,
        !crate::rational::before(a, b),
        !crate::rational::before(b, a),
{
}

/// Any two defined times are compared by their fractions.
pub proof fn lemma_compared(a: Rational, b: Rational)
    requires
        a.den > 0,
        b.den > 0,
    ensures
        crate::rational::before(a, b) <==> a.num * b.den < b.num * a.den,
        crate::rational::same_time(a, b) <==> a.num * b.den == b.num * a.den,
{
}

} // verus!
