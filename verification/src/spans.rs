//! Moving and resizing the span of a block.

use crate::commands::Span;
use crate::rational::Rational;
use vstd::prelude::*;

verus! {

/// The length of a span.
pub open spec fn length_of(s: Span) -> Option<Rational> {
    crate::rational::difference_of(s.out_point, s.in_point)
}

/// The span with its in point at `t`: the length stays, and so does the
/// media in-point.
pub open spec fn moved(s: Span, t: Rational) -> Option<Span> {
    match length_of(s) {
        None => None,
        Some(length) => match crate::rational::sum_of(t, length) {
            None => None,
            Some(out_point) => Some(Span { in_point: t, out_point, ..s }),
        },
    }
}

/// The span with its length set at the out point: the in point stays, and so
/// does the media in-point.
pub open spec fn resized(s: Span, length: Rational) -> Option<Span> {
    match crate::rational::sum_of(s.in_point, length) {
        None => None,
        Some(out_point) => Some(Span { out_point, ..s }),
    }
}

/// The span with its length set at the in point: the out point stays, and
/// the media in-point follows the in point.
pub open spec fn head_trimmed(s: Span, length: Rational) -> Option<Span> {
    match crate::rational::difference_of(s.out_point, length) {
        None => None,
        Some(in_point) => match crate::rational::difference_of(in_point, s.in_point) {
            None => None,
            Some(shift) => match crate::rational::sum_of(s.media_in, shift) {
                None => None,
                Some(media_in) => Some(Span { in_point, media_in, ..s }),
            },
        },
    }
}

impl Span {
    /// The length of the span.
    pub fn length(self) -> (r: Option<Rational>)
        ensures
            r == length_of(self),
    {
        self.out_point.checked_sub(self.in_point)
    }

    /// The span with its in point at `t`, its length and media in-point kept.
    pub fn move_to(self, t: Rational) -> (r: Option<Span>)
        ensures
            r == moved(self, t),
    {
        match self.length() {
            None => None,
            Some(length) => match t.checked_add(length) {
                None => None,
                Some(out_point) => Some(Span { in_point: t, out_point, ..self }),
            },
        }
    }

    /// The span with its length set, the in point kept.
    pub fn set_length_and_media_out(self, length: Rational) -> (r: Option<Span>)
        ensures
            r == resized(self, length),
    {
        match self.in_point.checked_add(length) {
            None => None,
            Some(out_point) => Some(Span { out_point, ..self }),
        }
    }

    /// The span with its length set, the out point kept; the media in-point
    /// follows the in point.
    pub fn set_length_keeping_out(self, length: Rational) -> (r: Option<Span>)
        ensures
            r == head_trimmed(self, length),
    {
        match self.out_point.checked_sub(length) {
            None => None,
            Some(in_point) => match in_point.checked_sub(self.in_point) {
                None => None,
                Some(shift) => match self.media_in.checked_add(shift) {
                    None => None,
                    Some(media_in) => Some(Span { in_point, media_in, ..self }),
                },
            },
        }
    }
}

/// Whether a time is defined and in lowest terms.
pub open spec fn canonical(t: Rational) -> bool {
    t.den > 0 && crate::rational::reduced(t.num as int, t.den as int) == (t.num as int, t.den as int)
}

/// Sums and differences of defined times come in lowest terms.
pub proof fn lemma_results_are_canonical(n: int, d: int)
    requires
        d > 0,
        crate::rational::rational_of(n, d) is Some,
    ensures
        canonical(crate::rational::rational_of(n, d).unwrap()),
{
    crate::rational::lemma_reduced_value(n, d);
    let r = crate::rational::rational_of(n, d).unwrap();
    crate::rational::lemma_reduced_unique(r.num as int, r.den as int, n, d);
}

/// The time of a frame comes in lowest terms, where it is representable.
pub proof fn lemma_frame_times_are_canonical(ts: i64, tb: (i64, i64))
    requires
        tb.1 > 0,
        crate::rational::representable(ts * tb.0, tb.1 as int),
    ensures
        canonical(crate::timebase::time_of(ts, tb)),
{
    lemma_results_are_canonical(ts * tb.0, tb.1 as int);
}

/// Trimming the head to the length that is left behind a new in point puts
/// the in point there, keeps the out point, and advances the media in-point
/// by as much as the in point.
pub proof fn lemma_head_trim(s: Span, new_in: Rational)
    requires
        canonical(s.in_point),
        canonical(s.out_point),
        canonical(s.media_in),
        canonical(new_in),
        crate::rational::difference_of(s.out_point, new_in) is Some,
        head_trimmed(
            s,
            crate::rational::difference_of(s.out_point, new_in).unwrap(),
        ) is Some,
    ensures
        ({
            let t = head_trimmed(
                s,
                crate::rational::difference_of(s.out_point, new_in).unwrap(),
            ).unwrap();
            &&& t.in_point == new_in
            &&& t.out_point == s.out_point
            &&& crate::rational::difference_of(new_in, s.in_point) is Some
            &&& Some(t.media_in) == crate::rational::sum_of(
                s.media_in,
                crate::rational::difference_of(new_in, s.in_point).unwrap(),
            )
        }),
{
    let length = crate::rational::difference_of(s.out_point, new_in).unwrap();
    lemma_double_difference(s.out_point, new_in);
}

/// Subtracting a difference from its minuend gives the subtrahend back.
pub proof fn lemma_double_difference(a: Rational, b: Rational)
    requires
        canonical(a),
        canonical(b),
        crate::rational::difference_of(a, b) is Some,
    ensures
        crate::rational::difference_of(
            a,
            crate::rational::difference_of(a, b).unwrap(),
        ) == Some(b),
{
    let n = a.num * b.den - b.num * a.den;
    let k = a.den * b.den;
    assert(k > 0) by (nonlinear_arith)
        requires
            k == a.den * b.den,
            a.den > 0,
            b.den > 0,
    ;
    crate::rational::lemma_reduced_value(n, k);
    let d = crate::rational::difference_of(a, b).unwrap();
    let top = a.num * d.den - d.num * a.den;
    let bottom = a.den * d.den;
    assert(bottom > 0) by (nonlinear_arith)
        requires
            bottom == a.den * d.den,
            a.den > 0,
            d.den > 0,
    ;
    lemma_cancel(
        a.num as int,
        a.den as int,
        b.num as int,
        b.den as int,
        d.num as int,
        d.den as int,
    );
    crate::rational::lemma_reduced_unique(top, bottom, b.num as int, b.den as int);
}

proof fn lemma_cancel(an: int, ad: int, bn: int, bd: int, dn: int, dd: int)
    requires
        dn * (ad * bd) == (an * bd - bn * ad) * dd,
    ensures
        (an * dd - dn * ad) * bd == bn * (ad * dd),
{
    assert(dn * (ad * bd) == dn * ad * bd) by (nonlinear_arith);
    assert((an * bd - bn * ad) * dd == an * bd * dd - bn * ad * dd) by (nonlinear_arith);
    assert((an * dd - dn * ad) * bd == an * dd * bd - dn * ad * bd) by (nonlinear_arith);
    assert(an * dd * bd == an * bd * dd) by (nonlinear_arith);
    assert(bn * (ad * dd) == bn * ad * dd) by (nonlinear_arith);
}

/// A difference is recovered from the sum it went into.
pub proof fn lemma_difference_of_sum(a: Rational, b: Rational)
    requires
        a.den > 0,
        canonical(b),
        crate::rational::sum_of(a, b) is Some,
    ensures
        crate::rational::difference_of(crate::rational::sum_of(a, b).unwrap(), a) == Some(b),
{
    let n = a.num * b.den + b.num * a.den;
    let k = a.den * b.den;
    assert(k > 0) by (nonlinear_arith)
        requires
            k == a.den * b.den,
            a.den > 0,
            b.den > 0,
    ;
    crate::rational::lemma_reduced_value(n, k);
    let d = crate::rational::sum_of(a, b).unwrap();
    let top = d.num * a.den - a.num * d.den;
    let bottom = d.den * a.den;
    assert(bottom > 0) by (nonlinear_arith)
        requires
            bottom == d.den * a.den,
            a.den > 0,
            d.den > 0,
    ;
    lemma_recover(
        a.num as int,
        a.den as int,
        b.num as int,
        b.den as int,
        d.num as int,
        d.den as int,
    );
    crate::rational::lemma_reduced_unique(top, bottom, b.num as int, b.den as int);
}

proof fn lemma_recover(an: int, ad: int, bn: int, bd: int, dn: int, dd: int)
    requires
        dn * (ad * bd) == (an * bd + bn * ad) * dd,
    ensures
        (dn * ad - an * dd) * bd == bn * (dd * ad),
{
    assert(dn * (ad * bd) == dn * ad * bd) by (nonlinear_arith);
    assert((an * bd + bn * ad) * dd == an * bd * dd + bn * ad * dd) by (nonlinear_arith);
    assert((dn * ad - an * dd) * bd == dn * ad * bd - an * dd * bd) by (nonlinear_arith);
    assert(an * dd * bd == an * bd * dd) by (nonlinear_arith);
    assert(bn * (dd * ad) == bn * ad * dd) by (nonlinear_arith);
}

/// Moving a span keeps its length and its media in-point, and puts the in
/// point where it was asked for.
pub proof fn lemma_move(s: Span, t: Rational)
    requires
        s.in_point.den > 0,
        s.out_point.den > 0,
        t.den > 0,
        moved(s, t) is Some,
    ensures
        moved(s, t).unwrap().in_point == t,
        moved(s, t).unwrap().media_in == s.media_in,
        length_of(moved(s, t).unwrap()) == length_of(s),
{
    let length = length_of(s).unwrap();
    let n = s.out_point.num * s.in_point.den - s.in_point.num * s.out_point.den;
    let d = s.out_point.den * s.in_point.den;
    assert(d > 0) by (nonlinear_arith)
        requires
            d == s.out_point.den * s.in_point.den,
            s.out_point.den > 0,
            s.in_point.den > 0,
    ;
    lemma_results_are_canonical(n, d);
    lemma_difference_of_sum(t, length);
}

} // verus!
