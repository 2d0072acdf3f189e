//! Where the edits leave a clip, measured on the timeline.

use crate::commands::{Command, Span};
use crate::errors::EditError;
use crate::graph::NodeId;
use crate::rational::Rational;
use vstd::prelude::*;

verus! {

/// Whether a span lies between defined times.
pub open spec fn defined(s: Span) -> bool {
    s.in_point.den > 0 && s.out_point.den > 0 && s.media_in.den > 0
}

/// A clip is split where the frame starts, and exactly when that lies
/// strictly inside the clip.
pub proof fn lemma_split_lands(
    g: crate::graph::GraphModel,
    clip: NodeId,
    frame: i64,
    tb: (i64, i64),
    t: Rational,
)
    requires
        g.clip_time_base(clip) == Some(tb),
        crate::measures::frame_at(t, frame as int, tb),
    ensures
        ({
            let plan = crate::clip_edits::split_plan(g, clip, frame);
            let s = g.span(clip).unwrap();
            if crate::rational::before(s.in_point, t) && crate::rational::before(t, s.out_point) {
                &&& plan is Ok
                &&& plan.unwrap().len() == 1
                &&& plan.unwrap()[0] == (Command::Split { block: clip, at: t })
            } else {
                plan == Err::<Seq<Command>, EditError>(EditError::SplitTime { time: frame })
            }
        }),
{
    crate::measures::lemma_frame_at(t, frame, tb);
}

/// A roll moves the shared boundary of `a` and `b` to the frame asked for:
/// `a` gets the length that ends there, and the row is empty exactly when the
/// boundary is there already. The boundary stays strictly between the in
/// point of `a` and the out point of `b`.
pub proof fn lemma_roll_lands(
    g: crate::graph::GraphModel,
    track: NodeId,
    a: NodeId,
    b: NodeId,
    frame: i64,
    tb: (i64, i64),
    t: Rational,
)
    requires
        g.clip_time_base(a) == Some(tb),
        crate::measures::frame_at(t, frame as int, tb),
        g.span(b) is Some,
        defined(g.span(a).unwrap()),
        defined(g.span(b).unwrap()),
    ensures
        ({
            let plan = crate::clip_edits::roll_plan(g, track, a, b, frame);
            let left = g.span(a).unwrap();
            let right = g.span(b).unwrap();
            if !crate::rational::same_time(left.out_point, right.in_point) {
                plan == Err::<Seq<Command>, EditError>(EditError::NoBoundary)
            } else if !crate::rational::before(left.in_point, t) || !crate::rational::before(
                t,
                right.out_point,
            ) {
                plan == Err::<Seq<Command>, EditError>(EditError::BoundaryEscapes)
            } else if crate::rational::same_time(t, left.out_point) {
                plan is Ok && plan.unwrap().len() == 0
            } else {
                &&& plan is Ok ==> {
                    &&& plan.unwrap().len() == 1
                    &&& plan.unwrap()[0] is RollTrim
                    &&& plan.unwrap()[0]->RollTrim_track == track
                    &&& plan.unwrap()[0]->RollTrim_block == a
                    &&& crate::measures::later_by(
                        left.in_point,
                        t,
                        plan.unwrap()[0]->RollTrim_length,
                    )
                }
                &&& forall|length: Rational|
                    #![trigger crate::measures::later_by(left.in_point, t, length)]
                    crate::measures::later_by(left.in_point, t, length) ==> plan is Ok
            }
        }),
{
    crate::measures::lemma_frame_at(t, frame, tb);
    let left = g.span(a).unwrap();
    assert forall|length: Rational|
        #![trigger crate::measures::later_by(left.in_point, t, length)]
        crate::measures::later_by(
            left.in_point,
            t,
            length,
        ) implies crate::rational::difference_of(t, left.in_point) is Some by {
        crate::measures::lemma_difference_is_way(t, left.in_point, length);
    }
    crate::measures::lemma_difference_is_way(t, left.in_point, t);
}

/// A slip puts the media in-point where the frame asked for starts (frame 0
/// at the earliest), wherever it was before, and leaves the clip's place on
/// the timeline alone; the row is empty exactly when the media in-point is
/// there already.
pub proof fn lemma_slip_lands(
    g: crate::graph::GraphModel,
    clip: NodeId,
    frame: i64,
    tb: (i64, i64),
    t: Rational,
)
    requires
        g.clip_time_base(clip) == Some(tb),
        crate::measures::frame_at(
            t,
            if frame < 0 {
                0
            } else {
                frame as int
            },
            tb,
        ),
    ensures
        ({
            let plan = crate::clip_edits::slip_plan(g, clip, frame);
            let now = g.redone_all(plan.unwrap());
            let s = g.span(clip).unwrap();
            &&& plan is Ok
            &&& now.span(clip) is Some
            &&& crate::rational::same_time(now.span(clip).unwrap().media_in, t)
            &&& now.span(clip).unwrap().in_point == s.in_point
            &&& now.span(clip).unwrap().out_point == s.out_point
            &&& plan.unwrap().len() == 0 <==> crate::rational::same_time(s.media_in, t)
            &&& forall|other: NodeId| other != clip ==> now.node(other) == g.node(other)
        }),
{
    let at: i64 = if frame < 0 {
        0
    } else {
        frame
    };
    crate::measures::lemma_frame_at(t, at, tb);
    let commands = crate::clip_edits::slip_plan(g, clip, frame).unwrap();
    if commands.len() == 1 {
        assert(commands.drop_last() =~= Seq::empty());
        reveal_with_fuel(crate::graph::GraphModel::redone_all, 2);
    }
}

/// Moving a span puts its in point there and keeps its length and its media
/// in-point.
pub proof fn lemma_moved_span(s: Span, t: Rational, length: Rational)
    requires
        defined(s),
        t.den > 0,
        crate::spans::moved(s, t) is Some,
    ensures
        ({
            let after = crate::spans::moved(s, t).unwrap();
            &&& after.in_point == t
            &&& after.media_in == s.media_in
            &&& crate::measures::later_by(s.in_point, s.out_point, length)
                ==> crate::measures::later_by(t, after.out_point, length)
        }),
{
    let kept = crate::spans::length_of(s).unwrap();
    crate::measures::lemma_difference_is_way(s.out_point, s.in_point, kept);
    if crate::measures::later_by(s.in_point, s.out_point, length) {
        crate::measures::lemma_same_length(s.in_point, s.out_point, kept, length, t);
    }
}

/// Setting the length at the out point keeps the in point and the media
/// in-point.
pub proof fn lemma_resized_span(s: Span, length: Rational)
    requires
        defined(s),
        length.den > 0,
        crate::spans::resized(s, length) is Some,
    ensures
        ({
            let after = crate::spans::resized(s, length).unwrap();
            &&& after.in_point == s.in_point
            &&& after.media_in == s.media_in
            &&& crate::measures::later_by(s.in_point, after.out_point, length)
        }),
{
    crate::measures::lemma_sum_is_later(s.in_point, length, length);
}

/// Setting the length at the in point keeps the out point, and the media
/// in-point moves as far as the in point.
pub proof fn lemma_head_trimmed_span(s: Span, length: Rational, d: Rational)
    requires
        defined(s),
        length.den > 0,
        crate::spans::head_trimmed(s, length) is Some,
    ensures
        ({
            let after = crate::spans::head_trimmed(s, length).unwrap();
            &&& after.out_point == s.out_point
            &&& crate::measures::later_by(after.in_point, s.out_point, length)
            &&& crate::measures::later_by(s.in_point, after.in_point, d)
                ==> crate::measures::later_by(s.media_in, after.media_in, d)
        }),
{
    let after = crate::spans::head_trimmed(s, length).unwrap();
    crate::measures::lemma_difference_is_earlier(s.out_point, length, length);
    let shift = crate::rational::difference_of(after.in_point, s.in_point).unwrap();
    crate::measures::lemma_difference_is_way(after.in_point, s.in_point, shift);
    if crate::measures::later_by(s.in_point, after.in_point, d) {
        crate::measures::lemma_same_length(s.in_point, after.in_point, shift, d, s.media_in);
    }
}

/// What a slide does to the block before the clip: its out point moves as far
/// as the clip, unless the block would collapse, and nothing else of it
/// changes.
pub proof fn lemma_left_gives(
    g: crate::graph::GraphModel,
    block: NodeId,
    new: Rational,
    delta: Rational,
)
    requires
        g.span(block) is Some,
        defined(g.span(block).unwrap()),
        delta.den > 0,
        crate::clip_edits::left_slide(g, Some(block), new, delta) is Some,
    ensures
        ({
            let commands = crate::clip_edits::left_slide(g, Some(block), new, delta).unwrap();
            let s = g.span(block).unwrap();
            if crate::rational::before(s.in_point, new) {
                &&& commands.len() == 1
                &&& commands[0] is SetSpan
                &&& commands[0]->SetSpan_block == block
                &&& commands[0]->SetSpan_before == s
                &&& commands[0]->SetSpan_after.in_point == s.in_point
                &&& commands[0]->SetSpan_after.media_in == s.media_in
                &&& crate::measures::later_by(
                    s.out_point,
                    commands[0]->SetSpan_after.out_point,
                    delta,
                )
            } else {
                commands.len() == 0
            }
        }),
{
    let s = g.span(block).unwrap();
    if crate::rational::before(s.in_point, new) {
        let length = crate::spans::length_of(s).unwrap();
        crate::measures::lemma_difference_is_way(s.out_point, s.in_point, length);
        let longer = crate::rational::sum_of(length, delta).unwrap();
        crate::time_laws::lemma_lengthened_end(s.in_point, s.out_point, delta);
        crate::measures::lemma_sum_is_later(length, delta, longer);
        crate::measures::lemma_sum_is_later(s.out_point, delta, delta);
    }
}

/// What a slide does to the block behind the clip: its in point and its media
/// in-point move as far as the clip, unless the block would collapse, and its
/// out point stays.
pub proof fn lemma_right_gives(
    g: crate::graph::GraphModel,
    block: NodeId,
    new_out: Rational,
    delta: Rational,
)
    requires
        g.span(block) is Some,
        defined(g.span(block).unwrap()),
        delta.den > 0,
        crate::clip_edits::right_slide(g, Some(block), new_out, delta) is Some,
    ensures
        ({
            let commands = crate::clip_edits::right_slide(g, Some(block), new_out, delta).unwrap();
            let s = g.span(block).unwrap();
            if crate::rational::before(new_out, s.out_point) {
                &&& commands.len() == 1
                &&& commands[0] is SetSpan
                &&& commands[0]->SetSpan_block == block
                &&& commands[0]->SetSpan_before == s
                &&& commands[0]->SetSpan_after.out_point == s.out_point
                &&& crate::measures::later_by(
                    s.in_point,
                    commands[0]->SetSpan_after.in_point,
                    delta,
                )
                &&& crate::measures::later_by(
                    s.media_in,
                    commands[0]->SetSpan_after.media_in,
                    delta,
                )
            } else {
                commands.len() == 0
            }
        }),
{
    let s = g.span(block).unwrap();
    if crate::rational::before(new_out, s.out_point) {
        let length = crate::spans::length_of(s).unwrap();
        crate::measures::lemma_difference_is_way(s.out_point, s.in_point, length);
        let shorter = crate::rational::difference_of(length, delta).unwrap();
        crate::measures::lemma_difference_is_earlier(length, delta, delta);
        crate::time_laws::lemma_shortened_start(s.in_point, s.out_point, delta);
        crate::measures::lemma_sum_is_later(s.in_point, delta, delta);
        lemma_head_trimmed_span(s, shorter, delta);
    }
}

/// When a trim is refused, when it makes no row, and when it must go through:
/// a clip on frames is trimmed unless it has that range already.
pub proof fn lemma_trim_rows(
    g: crate::graph::GraphModel,
    clip: NodeId,
    new_in: i64,
    new_out: i64,
    tb: (i64, i64),
    i: i64,
    o: i64,
    from: Rational,
    to: Rational,
    rest: Rational,
    shift: Rational,
    media: Rational,
    length: Rational,
)
    requires
        g.clip_time_base(clip) == Some(tb),
        tb.0 > 0,
        crate::edit_laws::canonical_span(g.span(clip).unwrap()),
        crate::measures::on_frame(g.span(clip).unwrap().in_point, i as int, tb),
        crate::measures::on_frame(g.span(clip).unwrap().out_point, o as int, tb),
        crate::measures::frame_at(from, new_in as int, tb),
        crate::measures::frame_at(to, new_out as int, tb),
        crate::measures::later_by(from, g.span(clip).unwrap().out_point, rest),
        crate::measures::later_by(g.span(clip).unwrap().in_point, from, shift),
        crate::measures::later_by(g.span(clip).unwrap().media_in, media, shift),
        crate::measures::later_by(from, to, length),
    ensures
        ({
            let plan = crate::clip_edits::trim_plan(g, clip, new_in, new_out);
            if new_in < 0 || new_out <= new_in {
                plan is Err && plan->Err_0 == EditError::TrimRange
            } else {
                plan is Ok && (plan.unwrap().len() == 0 <==> new_in == i && new_out == o)
            }
        }),
{
    let s = g.span(clip).unwrap();
    crate::measures::lemma_frame_at(from, new_in, tb);
    crate::measures::lemma_frame_at(to, new_out, tb);
    crate::measures::lemma_frame_read_back(s.in_point, i, tb);
    crate::measures::lemma_frame_read_back(s.out_point, o, tb);
    crate::measures::lemma_same_frame(from, new_in as int, s.in_point, i as int, tb);
    crate::measures::lemma_same_frame(to, new_out as int, s.out_point, o as int, tb);
    if 0 <= new_in < new_out && !(new_in == i && new_out == o) {
        crate::measures::lemma_difference_is_way(to, from, length);
        if new_in != i {
            crate::measures::lemma_difference_is_way(s.out_point, from, rest);
            crate::spans::lemma_double_difference(s.out_point, from);
            crate::measures::lemma_difference_is_way(from, s.in_point, shift);
            let d = crate::rational::difference_of(from, s.in_point).unwrap();
            lemma_as_far(s.media_in, media, shift, d);
            crate::measures::lemma_sum_is_later(s.media_in, d, media);
        } else {
            crate::time_laws::lemma_canonical_equal(from, s.in_point);
        }
        let l = crate::rational::difference_of(to, from).unwrap();
        crate::measures::lemma_sum_is_later(from, l, to);
    }
}

/// A way that is as long leads as far.
proof fn lemma_as_far(a: Rational, b: Rational, d: Rational, e: Rational)
    requires
        crate::measures::later_by(a, b, d),
        d.den > 0,
        e.den > 0,
        crate::rational::same_time(e, d),
    ensures
        crate::measures::later_by(a, b, e),
{
    let n = b.num * a.den - a.num * b.den;
    let k = a.den * b.den;
    let (dn, dd) = (d.num as int, d.den as int);
    let (en, ed) = (e.num as int, e.den as int);
    assert(n * ed == en * k) by (nonlinear_arith)
        requires
            n * dd == dn * k,
            en * dd == dn * ed,
            dd > 0,
    ;
}

/// A ripple trim moves every block behind the clip by as much as the edge of
/// the clip, with its length and its media, and changes no other block.
pub proof fn lemma_ripple_moves(
    g: crate::graph::GraphModel,
    clip: NodeId,
    start_edge: bool,
    frame: i64,
    tb: (i64, i64),
    t: Rational,
    i: int,
    way: Rational,
)
    requires
        crate::edit_laws::listed_once(g),
        g.clip_time_base(clip) == Some(tb),
        crate::measures::frame_at(t, frame as int, tb),
        defined(g.span(clip).unwrap()),
        0 <= i < g.track(g.track_of(clip).unwrap()).unwrap().blocks.len(),
        g.track(g.track_of(clip).unwrap()).unwrap().blocks[i] == clip,
        crate::measures::later_by(
            if start_edge {
                g.span(clip).unwrap().in_point
            } else {
                g.span(clip).unwrap().out_point
            },
            t,
            way,
        ),
        crate::clip_edits::ripple_plan(g, clip, start_edge, frame) is Ok,
    ensures
        ({
            let commands = crate::clip_edits::ripple_plan(g, clip, start_edge, frame).unwrap();
            let now = g.redone_all(commands);
            let blocks = g.track(g.track_of(clip).unwrap()).unwrap().blocks;
            &&& commands.len() == 0 <==> way.num == 0
            &&& way.num != 0 ==> forall|k: int|
                i < k < blocks.len() && g.span(#[trigger] blocks[k]) is Some && defined(
                    g.span(blocks[k]).unwrap(),
                ) ==> {
                    let before = g.span(blocks[k]).unwrap();
                    let after = now.span(blocks[k]).unwrap();
                    &&& now.span(blocks[k]) is Some
                    &&& crate::measures::later_by(before.in_point, after.in_point, way)
                    &&& crate::measures::later_by(before.out_point, after.out_point, way)
                    &&& after.media_in == before.media_in
                }
            &&& forall|id: NodeId|
                (forall|k: int| i <= k < blocks.len() ==> #[trigger] blocks[k] != id)
                    ==> #[trigger] now.node(id) == g.node(id)
        }),
{
    crate::measures::lemma_frame_at(t, frame, tb);
    let commands = crate::clip_edits::ripple_plan(g, clip, start_edge, frame).unwrap();
    let now = g.redone_all(commands);
    let blocks = g.track(g.track_of(clip).unwrap()).unwrap().blocks;
    let s = g.span(clip).unwrap();
    let edge = if start_edge {
        s.in_point
    } else {
        s.out_point
    };
    assert(blocks.contains(blocks[i]));
    crate::list::lemma_position(blocks, clip);
    crate::edit_laws::lemma_ripple_respans(g, clip, start_edge, frame);
    let (length, delta) = crate::clip_edits::ripple_amounts(s, start_edge, t).unwrap();
    crate::measures::lemma_difference_is_way(t, edge, way);
    crate::measures::lemma_ordered(edge, t, way);
    crate::measures::lemma_ordered(edge, t, delta);
    let behind = blocks.subrange(i + 1, blocks.len() as int);
    if way.num != 0 {
        let tail = crate::clip_edits::shifts(g, behind, delta).unwrap();
        assert forall|k: int|
            i < k < blocks.len() && g.span(#[trigger] blocks[k]) is Some && defined(
                g.span(blocks[k]).unwrap(),
            ) implies ({
            let before = g.span(blocks[k]).unwrap();
            let after = now.span(blocks[k]).unwrap();
            &&& now.span(blocks[k]) is Some
            &&& crate::measures::later_by(before.in_point, after.in_point, way)
            &&& crate::measures::later_by(before.out_point, after.out_point, way)
            &&& after.media_in == before.media_in
        }) by {
            assert(behind[k - i - 1] == blocks[k]);
            let b = crate::edit_laws::lemma_shift_of(g, behind, delta, k - i - 1);
            assert(commands[b + 1] == tail[b]);
            crate::edit_laws::lemma_respanned(g, commands, b + 1);
            let before = g.span(blocks[k]).unwrap();
            let to = crate::rational::sum_of(before.in_point, delta).unwrap();
            let kept = crate::spans::length_of(before).unwrap();
            crate::measures::lemma_difference_is_way(before.out_point, before.in_point, kept);
            crate::measures::lemma_same_length(edge, t, delta, way, before.in_point);
            crate::time_laws::lemma_shifted_end(before.in_point, before.out_point, delta);
            crate::measures::lemma_same_length(edge, t, delta, way, before.out_point);
        }
        assert forall|id: NodeId|
            (forall|k: int| i <= k < blocks.len() ==> #[trigger] blocks[k] != id) implies
            #[trigger] now.node(id) == g.node(id) by {
            lemma_shifted_blocks(g, behind, delta);
            assert forall|c: int| 0 <= c < commands.len() implies (#[trigger] commands[c]) is SetSpan
                && crate::edit_laws::respanned_block(commands[c]) != Some(id) by {
                if c == 0 {
                    assert(blocks[i] != id);
                } else {
                    assert(commands[c] == tail[c - 1]);
                    let x = crate::edit_laws::respanned_block(tail[c - 1]).unwrap();
                    assert(behind.contains(x));
                    let k = choose|k: int| 0 <= k < behind.len() && behind[k] == x;
                    assert(blocks[i + 1 + k] == x);
                }
            }
            crate::edit_laws::lemma_other_spans(g, commands, id);
        }
    }
}

proof fn lemma_shifted_blocks(g: crate::graph::GraphModel, blocks: Seq<NodeId>, delta: Rational)
    requires
        crate::clip_edits::shifts(g, blocks, delta) is Some,
    ensures
        forall|c: int|
            0 <= c < crate::clip_edits::shifts(g, blocks, delta).unwrap().len() ==> {
                let command = #[trigger] crate::clip_edits::shifts(g, blocks, delta).unwrap()[c];
                command is SetSpan && blocks.contains(command->SetSpan_block)
            },
    decreases blocks.len(),
{
    if blocks.len() > 0 {
        let init = blocks.drop_last();
        lemma_shifted_blocks(g, init, delta);
        let all = crate::clip_edits::shifts(g, blocks, delta).unwrap();
        let done = crate::clip_edits::shifts(g, init, delta).unwrap();
        assert forall|c: int| 0 <= c < all.len() implies ({
            let command = #[trigger] all[c];
            command is SetSpan && blocks.contains(command->SetSpan_block)
        }) by {
            if c < done.len() {
                assert(all[c] == done[c]);
                let x = done[c]->SetSpan_block;
                assert(init.contains(x));
                let k = choose|k: int| 0 <= k < init.len() && init[k] == x;
                assert(blocks[k] == x);
            } else {
                assert(blocks[blocks.len() - 1] == all[c]->SetSpan_block);
            }
        }
    }
}

} // verus!
