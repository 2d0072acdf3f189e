//! What the edits of a clip have in common: each can be taken back, and each
//! leaves alone what it does not name.

use crate::commands::{Command, Span};
use crate::graph::NodeId;
use crate::rational::Rational;
use vstd::prelude::*;

verus! {

/// The block whose span a command rewrites.
pub open spec fn respanned_block(c: Command) -> Option<NodeId> {
    match c {
        Command::SetSpan { block, before, after } => Some(block),
        _ => None,
    }
}

/// Whether every command rewrites the span of a block, each block at most
/// once, from the span it has in `g`.
pub open spec fn respans_once(g: crate::graph::GraphModel, commands: Seq<Command>) -> bool {
    &&& forall|i: int|
        0 <= i < commands.len() ==> (#[trigger] commands[i] matches Command::SetSpan {
            block,
            before,
            after,
        } && g.span(block) == Some(before))
    &&& forall|i: int, j: int|
        0 <= i < j < commands.len() ==> respanned_block(#[trigger] commands[i]) != respanned_block(
            #[trigger] commands[j],
        )
}

/// The command rewrites the span of no block but those it names.
pub(crate) proof fn lemma_other_spans(g: crate::graph::GraphModel, commands: Seq<Command>, id: NodeId)
    requires
        forall|i: int|
            0 <= i < commands.len() ==> (#[trigger] commands[i]) is SetSpan && respanned_block(
                commands[i],
            ) != Some(id),
    ensures
        g.redone_all(commands).block(id) == g.block(id),
        g.redone_all(commands).node(id) == g.node(id),
    decreases commands.len(),
{
    if commands.len() > 0 {
        let init = commands.drop_last();
        assert forall|i: int| 0 <= i < init.len() implies (#[trigger] init[i]) is SetSpan
            && respanned_block(init[i]) != Some(id) by {
            assert(init[i] == commands[i]);
        }
        lemma_other_spans(g, init, id);
        let last = commands[commands.len() - 1];
        assert(last is SetSpan && respanned_block(last) != Some(id));
    }
}

/// Rewriting each of some blocks once can be taken back.
pub proof fn lemma_respans_reversible(g: crate::graph::GraphModel, commands: Seq<Command>)
    requires
        respans_once(g, commands),
    ensures
        crate::reversal::reversible_all(g, commands),
    decreases commands.len(),
{
    if commands.len() > 0 {
        let init = commands.drop_last();
        assert(respans_once(g, init)) by {
            assert forall|i: int| 0 <= i < init.len() implies (#[trigger] init[i] matches
                Command::SetSpan { block, before, after } && g.span(block) == Some(before)) by {
                assert(init[i] == commands[i]);
            }
            assert forall|i: int, j: int| 0 <= i < j < init.len() implies respanned_block(
                #[trigger] init[i],
            ) != respanned_block(#[trigger] init[j]) by {
                assert(init[i] == commands[i] && init[j] == commands[j]);
            }
        }
        lemma_respans_reversible(g, init);
        let last = commands[commands.len() - 1];
        let id = respanned_block(last).unwrap();
        assert forall|i: int| 0 <= i < init.len() implies (#[trigger] init[i]) is SetSpan
            && respanned_block(init[i]) != Some(id) by {
            assert(init[i] == commands[i]);
            assert(respanned_block(commands[i]) != respanned_block(commands[commands.len() - 1]));
        }
        lemma_other_spans(g, init, id);
    }
}

/// Whether no block stands on its track twice.
pub open spec fn listed_once(g: crate::graph::GraphModel) -> bool {
    forall|id: NodeId|
        #![trigger g.track(id)]
        g.track(id) matches Some(t) ==> t.blocks.no_duplicates()
}

/// A trim can be taken back.
pub proof fn lemma_trim_reversible(
    g: crate::graph::GraphModel,
    clip: NodeId,
    new_in_ts: i64,
    new_out_ts: i64,
)
    requires
        crate::clip_edits::trim_plan(g, clip, new_in_ts, new_out_ts) is Ok,
    ensures
        crate::reversal::reversible_all(
            g,
            crate::clip_edits::trim_plan(g, clip, new_in_ts, new_out_ts).unwrap(),
        ),
{
    reveal_with_fuel(crate::reversal::reversible_all, 3);
    reveal_with_fuel(crate::graph::GraphModel::redone_all, 3);
    let commands = crate::clip_edits::trim_plan(g, clip, new_in_ts, new_out_ts).unwrap();
    if commands.len() > 0 {
        let tb = g.clip_time_base(clip).unwrap();
        let span = g.span(clip).unwrap();
        let new_in = crate::timebase::time_of(new_in_ts, tb);
        let new_out = crate::timebase::time_of(new_out_ts, tb);
        let (head, after) = crate::clip_edits::in_trim(clip, span, new_in).unwrap();
        let tail = crate::clip_edits::out_trim(clip, after, new_in, new_out).unwrap();
        assert(commands == head + tail);
        assert(g.span(clip) == Some(span));
        if head.len() == 0 {
            assert(commands =~= tail);
            assert(commands.drop_last() =~= Seq::empty());
        } else if tail.len() == 0 {
            assert(commands =~= head);
            assert(commands.drop_last() =~= Seq::empty());
        } else {
            assert(commands.drop_last() =~= head);
            assert(head.drop_last() =~= Seq::empty());
            assert(g.redone(head[0]).span(clip) == Some(after));
        }
    }
}

proof fn lemma_shifts_respan(
    g: crate::graph::GraphModel,
    blocks: Seq<NodeId>,
    delta: Rational,
)
    requires
        crate::clip_edits::shifts(g, blocks, delta) is Some,
        blocks.no_duplicates(),
    ensures
        respans_once(g, crate::clip_edits::shifts(g, blocks, delta).unwrap()),
        forall|i: int|
            0 <= i < crate::clip_edits::shifts(g, blocks, delta).unwrap().len()
                ==> blocks.contains(
                respanned_block(
                    #[trigger] crate::clip_edits::shifts(g, blocks, delta).unwrap()[i],
                ).unwrap(),
            ),
    decreases blocks.len(),
{
    if blocks.len() > 0 {
        let init = blocks.drop_last();
        assert forall|i: int, j: int| 0 <= i < init.len() && 0 <= j < init.len() && i != j implies init[i]
            != init[j] by {
            assert(init[i] == blocks[i] && init[j] == blocks[j]);
        }
        lemma_shifts_respan(g, init, delta);
        let done = crate::clip_edits::shifts(g, init, delta).unwrap();
        let all = crate::clip_edits::shifts(g, blocks, delta).unwrap();
        assert forall|i: int| 0 <= i < all.len() implies blocks.contains(
            respanned_block(#[trigger] all[i]).unwrap(),
        ) by {
            if i < done.len() {
                assert(all[i] == done[i]);
                let b = respanned_block(done[i]).unwrap();
                assert(init.contains(b));
                let k = choose|k: int| 0 <= k < init.len() && init[k] == b;
                assert(blocks[k] == b);
            } else {
                assert(blocks[blocks.len() - 1] == blocks.last());
            }
        }
        assert forall|i: int, j: int| 0 <= i < j < all.len() implies respanned_block(
            #[trigger] all[i],
        ) != respanned_block(#[trigger] all[j]) by {
            assert(all[i] == done[i]);
            if j < done.len() {
                assert(all[j] == done[j]);
            } else {
                let b = respanned_block(done[i]).unwrap();
                assert(init.contains(b));
                let k = choose|k: int| 0 <= k < init.len() && init[k] == b;
                assert(blocks[k] == b);
                assert(blocks[k] != blocks[blocks.len() - 1]);
            }
        }
    }
}

pub(crate) proof fn lemma_ripple_respans(
    g: crate::graph::GraphModel,
    clip: NodeId,
    start_edge: bool,
    new_frame: i64,
)
    requires
        listed_once(g),
        crate::clip_edits::ripple_plan(g, clip, start_edge, new_frame) is Ok,
    ensures
        respans_once(g, crate::clip_edits::ripple_plan(g, clip, start_edge, new_frame).unwrap()),
{
    let commands = crate::clip_edits::ripple_plan(g, clip, start_edge, new_frame).unwrap();
    if commands.len() > 0 {
        let track = g.track_of(clip).unwrap();
        let blocks = g.track(track).unwrap().blocks;
        crate::list::lemma_position(blocks, clip);
        let i = crate::list::position_of(blocks, clip).unwrap();
        let behind = blocks.subrange(i + 1, blocks.len() as int);
        assert forall|a: int, b: int|
            0 <= a < behind.len() && 0 <= b < behind.len() && a != b implies behind[a]
            != behind[b] by {
            assert(behind[a] == blocks[i + 1 + a] && behind[b] == blocks[i + 1 + b]);
        }
        let span = g.span(clip).unwrap();
        let tb = g.clip_time_base(clip).unwrap();
        let (length, delta) = crate::clip_edits::ripple_amounts(
            span,
            start_edge,
            crate::timebase::time_of(new_frame, tb),
        ).unwrap();
        lemma_shifts_respan(g, behind, delta);
        let tail = crate::clip_edits::shifts(g, behind, delta).unwrap();
        assert forall|k: int| 0 <= k < tail.len() implies respanned_block(#[trigger] tail[k])
            != Some(clip) by {
            let b = respanned_block(tail[k]).unwrap();
            assert(behind.contains(b));
            let m = choose|m: int| 0 <= m < behind.len() && behind[m] == b;
            assert(blocks[i + 1 + m] == b);
            assert(blocks[i] != blocks[i + 1 + m]);
        }
        assert(commands.len() == 1 + tail.len());
        assert forall|k: int| 1 <= k < commands.len() implies #[trigger] commands[k] == tail[k
            - 1] by {}
    }
}

/// A ripple trim can be taken back.
pub proof fn lemma_ripple_trim_reversible(
    g: crate::graph::GraphModel,
    clip: NodeId,
    start_edge: bool,
    new_frame: i64,
)
    requires
        listed_once(g),
        crate::clip_edits::ripple_plan(g, clip, start_edge, new_frame) is Ok,
    ensures
        crate::reversal::reversible_all(
            g,
            crate::clip_edits::ripple_plan(g, clip, start_edge, new_frame).unwrap(),
        ),
{
    lemma_ripple_respans(g, clip, start_edge, new_frame);
    lemma_respans_reversible(
        g,
        crate::clip_edits::ripple_plan(g, clip, start_edge, new_frame).unwrap(),
    );
}

/// Whether a clip and the blocks next to it on its track are different
/// blocks.
pub open spec fn apart(g: crate::graph::GraphModel, clip: NodeId) -> bool {
    let blocks = g.track(g.track_of(clip).unwrap()).unwrap().blocks;
    crate::list::position_of(blocks, clip) matches Some(i) ==> {
        &&& i + 1 < blocks.len() ==> blocks[i + 1] != clip
        &&& 0 < i && i + 1 < blocks.len() ==> blocks[i - 1] != blocks[i + 1]
    }
}

/// Where a slide puts the clip: the frame asked for, the first one when that
/// lies before it.
pub open spec fn slide_target(g: crate::graph::GraphModel, clip: NodeId, new_start: i64) -> Rational {
    crate::timebase::time_of(
        if new_start < 0 {
            0
        } else {
            new_start
        },
        g.clip_time_base(clip).unwrap(),
    )
}

/// Whether a span has two ends.
pub open spec fn defined_span(s: Span) -> bool {
    s.in_point.den > 0 && s.out_point.den > 0
}

proof fn lemma_target_defined(g: crate::graph::GraphModel, clip: NodeId, new_start: i64)
    requires
        g.clip_time_base(clip) is Some,
    ensures
        slide_target(g, clip, new_start).den > 0,
{
    let tb = g.clip_time_base(clip).unwrap();
    let frame: i64 = if new_start < 0 {
        0
    } else {
        new_start
    };
    let n = frame * tb.0;
    let d = tb.1 as int;
    crate::rational::lemma_reduced_value(n, d);
    let m = crate::rational::magnitude(n);
    let k = crate::rational::magnitude(d);
    crate::rational::lemma_gcd_positive(m, k);
    let divisor = crate::rational::gcd_of(m, k) as int;
    let bottom = d / divisor;
    assert(bottom <= d) by (nonlinear_arith)
        requires
            bottom == d / divisor,
            divisor > 0,
            d > 0,
    ;
}

/// A slide can be taken back.
pub proof fn lemma_slide_reversible(g: crate::graph::GraphModel, clip: NodeId, new_start: i64)
    requires
        apart(g, clip),
        crate::clip_edits::slide_plan(g, clip, new_start) is Ok,
    ensures
        crate::reversal::reversible_all(
            g,
            crate::clip_edits::slide_plan(g, clip, new_start).unwrap(),
        ),
{
    let commands = crate::clip_edits::slide_plan(g, clip, new_start).unwrap();
    if commands.len() > 0 {
        lemma_slide_respans(g, clip, new_start);
        lemma_respans_reversible(g, commands);
    }
}

/// A slip can be taken back.
pub proof fn lemma_slip_reversible(g: crate::graph::GraphModel, clip: NodeId, new_media_in: i64)
    requires
        crate::clip_edits::slip_plan(g, clip, new_media_in) is Ok,
    ensures
        crate::reversal::reversible_all(
            g,
            crate::clip_edits::slip_plan(g, clip, new_media_in).unwrap(),
        ),
{
    let commands = crate::clip_edits::slip_plan(g, clip, new_media_in).unwrap();
    assert(respans_once(g, commands));
    lemma_respans_reversible(g, commands);
}

/// A change of a transition's length can be taken back.
pub proof fn lemma_wedge_reversible(
    g: crate::graph::GraphModel,
    clip: NodeId,
    start_edge: bool,
    frame: Rational,
    new_length: Rational,
)
    requires
        crate::wedges::wedge_plan(g, clip, start_edge, frame, new_length) is Ok,
    ensures
        crate::reversal::reversible_all(
            g,
            crate::wedges::wedge_plan(g, clip, start_edge, frame, new_length).unwrap().1,
        ),
{
    reveal_with_fuel(crate::reversal::reversible_all, 2);
    reveal_with_fuel(crate::graph::GraphModel::redone_all, 2);
    let commands = crate::wedges::wedge_plan(g, clip, start_edge, frame, new_length).unwrap().1;
    if commands.len() > 0 {
        assert(commands.drop_last() =~= Seq::empty());
    }
}

/// Rewriting each of some blocks once leaves each at its new span.
pub(crate) proof fn lemma_respanned(g: crate::graph::GraphModel, commands: Seq<Command>, i: int)
    requires
        respans_once(g, commands),
        0 <= i < commands.len(),
    ensures
        commands[i] matches Command::SetSpan { block, before, after } && g.redone_all(
            commands,
        ).span(block) == Some(after),
    decreases commands.len(),
{
    let init = commands.drop_last();
    let last = commands[commands.len() - 1];
    assert(respans_once(g, init)) by {
        assert forall|j: int| 0 <= j < init.len() implies (#[trigger] init[j] matches
            Command::SetSpan { block, before, after } && g.span(block) == Some(before)) by {
            assert(init[j] == commands[j]);
        }
        assert forall|j: int, k: int| 0 <= j < k < init.len() implies respanned_block(
            #[trigger] init[j],
        ) != respanned_block(#[trigger] init[k]) by {
            assert(init[j] == commands[j] && init[k] == commands[k]);
        }
    }
    if i < init.len() {
        lemma_respanned(g, init, i);
        assert(init[i] == commands[i]);
        assert(respanned_block(commands[i]) != respanned_block(commands[commands.len() - 1]));
    } else {
        let id = respanned_block(last).unwrap();
        assert forall|j: int| 0 <= j < init.len() implies (#[trigger] init[j]) is SetSpan
            && respanned_block(init[j]) != Some(id) by {
            assert(init[j] == commands[j]);
            assert(respanned_block(commands[j]) != respanned_block(commands[commands.len() - 1]));
        }
        lemma_other_spans(g, init, id);
    }
}

/// Whether the times of a span are defined and in lowest terms.
pub open spec fn canonical_span(s: Span) -> bool {
    &&& crate::spans::canonical(s.in_point)
    &&& crate::spans::canonical(s.out_point)
    &&& crate::spans::canonical(s.media_in)
}

/// A trim puts the clip where it was asked to be. The media window moves with
/// the in point, and stays when the in point stays.
pub proof fn lemma_trim_lands(
    g: crate::graph::GraphModel,
    clip: NodeId,
    new_in_ts: i64,
    new_out_ts: i64,
)
    requires
        crate::clip_edits::trim_plan(g, clip, new_in_ts, new_out_ts) is Ok,
        crate::clip_edits::trim_plan(g, clip, new_in_ts, new_out_ts).unwrap().len() > 0,
        canonical_span(g.span(clip).unwrap()),
        crate::spans::canonical(
            crate::timebase::time_of(new_in_ts, g.clip_time_base(clip).unwrap()),
        ),
        crate::spans::canonical(
            crate::timebase::time_of(new_out_ts, g.clip_time_base(clip).unwrap()),
        ),
    ensures
        ({
            let tb = g.clip_time_base(clip).unwrap();
            let new_in = crate::timebase::time_of(new_in_ts, tb);
            let before = g.span(clip).unwrap();
            let after = g.redone_all(
                crate::clip_edits::trim_plan(g, clip, new_in_ts, new_out_ts).unwrap(),
            ).span(clip).unwrap();
            &&& after.in_point == new_in
            &&& after.out_point == crate::timebase::time_of(new_out_ts, tb)
            &&& new_in == before.in_point ==> after.media_in == before.media_in
            &&& new_in != before.in_point ==> Some(after.media_in) == crate::rational::sum_of(
                before.media_in,
                crate::rational::difference_of(new_in, before.in_point).unwrap(),
            )
        }),
{
    reveal_with_fuel(crate::graph::GraphModel::redone_all, 3);
    let commands = crate::clip_edits::trim_plan(g, clip, new_in_ts, new_out_ts).unwrap();
    let tb = g.clip_time_base(clip).unwrap();
    let span = g.span(clip).unwrap();
    let new_in = crate::timebase::time_of(new_in_ts, tb);
    let new_out = crate::timebase::time_of(new_out_ts, tb);
    let (head, middle) = crate::clip_edits::in_trim(clip, span, new_in).unwrap();
    let tail = crate::clip_edits::out_trim(clip, middle, new_in, new_out).unwrap();
    assert(commands == head + tail);
    if head.len() == 0 {
        crate::time_laws::lemma_canonical_equal(new_in, span.in_point);
        assert(commands =~= tail);
    } else {
        crate::spans::lemma_head_trim(span, new_in);
        assert(!crate::rational::same_time(new_in, span.in_point));
    }
    assert(middle.in_point == new_in && middle.out_point == span.out_point);
    if tail.len() == 0 {
        crate::time_laws::lemma_canonical_equal(new_out, span.out_point);
        assert(commands =~= head);
        assert(head.drop_last() =~= Seq::empty());
    } else {
        crate::time_laws::lemma_there(new_out, new_in);
        assert(tail.drop_last() =~= Seq::empty());
        assert(commands.drop_last() =~= head);
        if head.len() > 0 {
            assert(head.drop_last() =~= Seq::empty());
            assert(g.redone(head[0]).span(clip) == Some(middle));
        }
    }
}

/// A slip keeps the clip's range and its track.
pub proof fn lemma_slip_keeps_range(g: crate::graph::GraphModel, clip: NodeId, new_media_in: i64)
    requires
        crate::clip_edits::slip_plan(g, clip, new_media_in) is Ok,
    ensures
        ({
            let before = g.block(clip).unwrap();
            let after = g.redone_all(
                crate::clip_edits::slip_plan(g, clip, new_media_in).unwrap(),
            ).block(clip).unwrap();
            &&& after.in_point == before.in_point
            &&& after.out_point == before.out_point
            &&& after.track == before.track
        }),
{
    reveal_with_fuel(crate::graph::GraphModel::redone_all, 2);
    let commands = crate::clip_edits::slip_plan(g, clip, new_media_in).unwrap();
    if commands.len() > 0 {
        assert(commands.drop_last() =~= Seq::empty());
    }
}

/// Blocks that meet still meet after both are shifted by the same time.
pub proof fn lemma_shift_keeps_joins(a: Span, b: Span, delta: Rational)
    requires
        a.in_point.den > 0,
        a.out_point.den > 0,
        delta.den > 0,
        a.out_point == b.in_point,
        crate::rational::sum_of(a.in_point, delta) is Some,
        crate::rational::sum_of(b.in_point, delta) is Some,
        crate::spans::moved(a, crate::rational::sum_of(a.in_point, delta).unwrap()) is Some,
        crate::spans::moved(b, crate::rational::sum_of(b.in_point, delta).unwrap()) is Some,
    ensures
        crate::spans::moved(
            a,
            crate::rational::sum_of(a.in_point, delta).unwrap(),
        ).unwrap().out_point == crate::spans::moved(
            b,
            crate::rational::sum_of(b.in_point, delta).unwrap(),
        ).unwrap().in_point,
{
    crate::time_laws::lemma_shifted_end(a.in_point, a.out_point, delta);
}

/// A slide keeps the clip's length and its media window, and puts the clip's
/// in point where it was asked to be.
pub proof fn lemma_slide_keeps_clip(g: crate::graph::GraphModel, clip: NodeId, new_start: i64)
    requires
        apart(g, clip),
        crate::clip_edits::slide_plan(g, clip, new_start) is Ok,
        crate::clip_edits::slide_plan(g, clip, new_start).unwrap().len() > 0,
        defined_span(g.span(clip).unwrap()),
    ensures
        ({
            let before = g.span(clip).unwrap();
            let after = g.redone_all(
                crate::clip_edits::slide_plan(g, clip, new_start).unwrap(),
            ).span(clip).unwrap();
            &&& after.in_point == slide_target(g, clip, new_start)
            &&& crate::spans::length_of(after) == crate::spans::length_of(before)
            &&& after.media_in == before.media_in
        }),
{
    let commands = crate::clip_edits::slide_plan(g, clip, new_start).unwrap();
    lemma_slide_respans(g, clip, new_start);
    lemma_respanned(g, commands, 0);
    let new = slide_target(g, clip, new_start);
    lemma_target_defined(g, clip, new_start);
    crate::spans::lemma_move(g.span(clip).unwrap(), new);
}

proof fn lemma_slide_respans(g: crate::graph::GraphModel, clip: NodeId, new_start: i64)
    requires
        apart(g, clip),
        crate::clip_edits::slide_plan(g, clip, new_start) is Ok,
        crate::clip_edits::slide_plan(g, clip, new_start).unwrap().len() > 0,
    ensures
        respans_once(g, crate::clip_edits::slide_plan(g, clip, new_start).unwrap()),
        crate::list::position_of(
            g.track(g.track_of(clip).unwrap()).unwrap().blocks,
            clip,
        ) is Some,
{
    let track = g.track_of(clip).unwrap();
    let blocks = g.track(track).unwrap().blocks;
    crate::list::lemma_position(blocks, clip);
    let i = crate::list::position_of(blocks, clip).unwrap();
    if i > 0 {
        assert(blocks[i - 1] != blocks[i]);
    }
    if i + 1 < blocks.len() {
        assert(blocks[i + 1] != blocks[i]);
    }
    if i > 0 && i + 1 < blocks.len() {
        assert(blocks[i - 1] != blocks[i + 1]);
    }
}

/// What a slide leaves of one neighbour: the block as it was, but for the end
/// that faces the clip, which moves as far as the clip does.
pub open spec fn gives_room(before: Span, after: Span, delta: Rational, left: bool) -> bool {
    if left {
        &&& after.in_point == before.in_point
        &&& after.media_in == before.media_in
        &&& Some(after.out_point) == crate::rational::sum_of(before.out_point, delta)
    } else {
        &&& after.out_point == before.out_point
        &&& Some(after.in_point) == crate::rational::sum_of(before.in_point, delta)
    }
}

/// A slide puts the clip where it was asked to be, with its length and its
/// media window. It makes a row exactly when the clip moves, and taking the
/// row back restores every block. It changes the clip and its two neighbours alone:
/// the left one keeps its in point and the right one its out point, and the
/// end that faces the clip moves as far as the clip does, unless the
/// neighbour would collapse, which is then left as it is.
pub proof fn lemma_slide_leaves_the_rest(
    g: crate::graph::GraphModel,
    clip: NodeId,
    new_start: i64,
    i: int,
)
    requires
        apart(g, clip),
        crate::clip_edits::slide_plan(g, clip, new_start) is Ok,
        crate::list::position_of(
            g.track(g.track_of(clip).unwrap()).unwrap().blocks,
            clip,
        ) == Some(i),
        defined_span(g.span(clip).unwrap()),
    ensures
        ({
            let blocks = g.track(g.track_of(clip).unwrap()).unwrap().blocks;
            let commands = crate::clip_edits::slide_plan(g, clip, new_start).unwrap();
            let now = g.redone_all(commands);
            let span = g.span(clip).unwrap();
            let new = slide_target(g, clip, new_start);
            let delta = crate::rational::difference_of(new, span.in_point).unwrap();
            &&& commands.len() == 0 <==> crate::rational::same_time(new, span.in_point)
            &&& now.span(clip) matches Some(after) && crate::rational::same_time(
                after.in_point,
                new,
            ) && crate::spans::length_of(after) == crate::spans::length_of(span)
                && after.media_in == span.media_in
            &&& now.undone_all(commands) == g
            &&& forall|id: NodeId|
                id != clip && !(i > 0 && id == blocks[i - 1]) && !(i + 1 < blocks.len() && id
                    == blocks[i + 1]) ==> #[trigger] now.node(id) == g.node(id)
            &&& commands.len() > 0 && i > 0 ==> (g.span(blocks[i - 1]) matches Some(before) ==> {
                let after = now.span(blocks[i - 1]).unwrap();
                &&& now.span(blocks[i - 1]) is Some
                &&& after.in_point == before.in_point
                &&& after.media_in == before.media_in
                &&& !crate::rational::before(before.in_point, new) ==> after == before
                &&& crate::rational::before(before.in_point, new) && before.out_point.den > 0
                    ==> gives_room(before, after, delta, true)
            })
            &&& commands.len() > 0 && i + 1 < blocks.len() ==> (g.span(blocks[i + 1]) matches Some(
                before,
            ) ==> {
                let after = now.span(blocks[i + 1]).unwrap();
                let end = now.span(clip).unwrap().out_point;
                &&& now.span(blocks[i + 1]) is Some
                &&& after.out_point == before.out_point
                &&& !crate::rational::before(end, before.out_point) ==> after == before
                &&& crate::rational::before(end, before.out_point) && before.in_point.den > 0
                    ==> gives_room(before, after, delta, false)
            })
        }),
{
    let commands = crate::clip_edits::slide_plan(g, clip, new_start).unwrap();
    let blocks = g.track(g.track_of(clip).unwrap()).unwrap().blocks;
    let now = g.redone_all(commands);
    let new = slide_target(g, clip, new_start);
    let span = g.span(clip).unwrap();
    let delta = crate::rational::difference_of(new, span.in_point).unwrap();
    lemma_target_defined(g, clip, new_start);
    crate::rational::lemma_sum_of_difference(new, span.in_point);
    lemma_slide_reversible(g, clip, new_start);
    crate::reversal::lemma_undo_redo_all(g, commands);
    lemma_no_way(new, span.in_point);
    if commands.len() > 0 {
        lemma_slide_keeps_clip(g, clip, new_start);
        let after = crate::spans::moved(span, new).unwrap();
        let left = crate::clip_edits::left_slide(
            g,
            crate::clip_edits::block_before(blocks, i),
            new,
            delta,
        ).unwrap();
        let right = crate::clip_edits::right_slide(
            g,
            crate::clip_edits::block_behind(blocks, i),
            after.out_point,
            delta,
        ).unwrap();
        lemma_slide_respans(g, clip, new_start);
        lemma_respanned(g, commands, 0);
        assert(now.span(clip) == Some(after));
        crate::list::lemma_position(blocks, clip);
        assert forall|id: NodeId|
            id != clip && !(i > 0 && id == blocks[i - 1] && left.len() > 0) && !(i + 1
                < blocks.len() && id == blocks[i + 1] && right.len()
                > 0) implies #[trigger] now.node(id) == g.node(id) by {
            assert forall|k: int| 0 <= k < commands.len() implies (
            #[trigger] commands[k]) is SetSpan && respanned_block(commands[k]) != Some(id) by {
                if k == 0 {
                    assert(respanned_block(commands[k]) == Some(clip));
                } else if k < 1 + left.len() {
                    assert(commands[k] == left[k - 1]);
                } else {
                    assert(commands[k] == right[k - 1 - left.len()]);
                }
            }
            lemma_other_spans(g, commands, id);
        }
        if i > 0 {
            assert(blocks[i - 1] != blocks[i]);
            if let Some(before) = g.span(blocks[i - 1]) {
                if left.len() > 0 {
                    assert(commands[1] == left[0]);
                    lemma_respanned(g, commands, 1);
                    if before.out_point.den > 0 {
                        crate::time_laws::lemma_lengthened_end(
                            before.in_point,
                            before.out_point,
                            delta,
                        );
                    }
                } else {
                    if i + 1 < blocks.len() {
                        assert(blocks[i - 1] != blocks[i + 1]);
                    }
                    assert(now.node(blocks[i - 1]) == g.node(blocks[i - 1]));
                }
            }
        }
        if i + 1 < blocks.len() {
            assert(blocks[i + 1] != blocks[i]);
            if let Some(before) = g.span(blocks[i + 1]) {
                if right.len() > 0 {
                    let at = 1 + left.len() as int;
                    assert(commands[at] == right[0]);
                    lemma_respanned(g, commands, at);
                    if before.in_point.den > 0 {
                        crate::time_laws::lemma_shortened_start(
                            before.in_point,
                            before.out_point,
                            delta,
                        );
                    }
                } else {
                    if i > 0 {
                        assert(blocks[i - 1] != blocks[i + 1]);
                    }
                    assert(now.node(blocks[i + 1]) == g.node(blocks[i + 1]));
                }
            }
        }
    }
}

proof fn lemma_no_way(a: Rational, b: Rational)
    requires
        a.den > 0,
        b.den > 0,
        crate::rational::difference_of(a, b) is Some,
    ensures
        crate::rational::difference_of(a, b).unwrap().num == 0 <==> crate::rational::same_time(
            a,
            b,
        ),
{
    let d = crate::rational::difference_of(a, b).unwrap();
    let n = a.num * b.den - b.num * a.den;
    crate::time_laws::lemma_positive(a.den as int, b.den as int);
    crate::rational::lemma_reduced_value(n, a.den * b.den);
    assert(d.num * (a.den * b.den) == n * d.den);
    if n == 0 {
        assert(d.num == 0) by (nonlinear_arith)
            requires
                d.num * (a.den * b.den) == n * d.den,
                n == 0,
                a.den * b.den > 0,
        ;
    }
    if d.num == 0 {
        assert(n == 0) by (nonlinear_arith)
            requires
                d.num * (a.den * b.den) == n * d.den,
                d.num == 0,
                d.den > 0,
        ;
    }
}

/// A slide leaves no hole: a neighbour that met the clip still meets it,
/// unless it would have collapsed.
pub proof fn lemma_slide_keeps_joins(
    g: crate::graph::GraphModel,
    clip: NodeId,
    new_start: i64,
    i: int,
)
    requires
        apart(g, clip),
        crate::clip_edits::slide_plan(g, clip, new_start) is Ok,
        crate::clip_edits::slide_plan(g, clip, new_start).unwrap().len() > 0,
        crate::list::position_of(
            g.track(g.track_of(clip).unwrap()).unwrap().blocks,
            clip,
        ) == Some(i),
        defined_span(g.span(clip).unwrap()),
    ensures
        ({
            let blocks = g.track(g.track_of(clip).unwrap()).unwrap().blocks;
            let now = g.redone_all(crate::clip_edits::slide_plan(g, clip, new_start).unwrap());
            let new = slide_target(g, clip, new_start);
            &&& i > 0 ==> (g.span(blocks[i - 1]) matches Some(left) && crate::rational::same_time(
                left.out_point,
                g.span(clip).unwrap().in_point,
            ) && crate::rational::before(left.in_point, new) ==> crate::rational::same_time(
                now.span(blocks[i - 1]).unwrap().out_point,
                now.span(clip).unwrap().in_point,
            ))
            &&& i + 1 < blocks.len() ==> (g.span(blocks[i + 1]) matches Some(right)
                && crate::rational::same_time(right.in_point, g.span(clip).unwrap().out_point)
                && crate::rational::before(now.span(clip).unwrap().out_point, right.out_point)
                ==> crate::rational::same_time(
                now.span(blocks[i + 1]).unwrap().in_point,
                now.span(clip).unwrap().out_point,
            ))
        }),
{
    let commands = crate::clip_edits::slide_plan(g, clip, new_start).unwrap();
    let blocks = g.track(g.track_of(clip).unwrap()).unwrap().blocks;
    let new = slide_target(g, clip, new_start);
    let span = g.span(clip).unwrap();
    let delta = crate::rational::difference_of(new, span.in_point).unwrap();
    let after = crate::spans::moved(span, new).unwrap();
    let left = crate::clip_edits::left_slide(
        g,
        crate::clip_edits::block_before(blocks, i),
        new,
        delta,
    ).unwrap();
    let right = crate::clip_edits::right_slide(
        g,
        crate::clip_edits::block_behind(blocks, i),
        after.out_point,
        delta,
    ).unwrap();
    lemma_slide_respans(g, clip, new_start);
    lemma_respanned(g, commands, 0);
    lemma_target_defined(g, clip, new_start);
    crate::rational::lemma_sum_of_difference(new, span.in_point);
    if i > 0 {
        if let Some(before) = g.span(blocks[i - 1]) {
            if crate::rational::same_time(before.out_point, span.in_point)
                && crate::rational::before(before.in_point, new) {
                assert(commands[1] == left[0]);
                lemma_respanned(g, commands, 1);
                crate::time_laws::lemma_lengthened_end(before.in_point, before.out_point, delta);
                crate::time_laws::lemma_same_way(span.in_point, before.out_point, new);
            }
        }
    }
    if i + 1 < blocks.len() {
        if let Some(before) = g.span(blocks[i + 1]) {
            if crate::rational::same_time(before.in_point, span.out_point)
                && crate::rational::before(after.out_point, before.out_point) {
                let at = 1 + left.len() as int;
                assert(commands[at] == right[0]);
                lemma_respanned(g, commands, at);
                crate::time_laws::lemma_shortened_start(
                    before.in_point,
                    before.out_point,
                    delta,
                );
                crate::time_laws::lemma_moved_end(
                    span.in_point,
                    span.out_point,
                    new,
                    before.in_point,
                );
            }
        }
    }
}

pub(crate) proof fn lemma_shift_of(
    g: crate::graph::GraphModel,
    blocks: Seq<NodeId>,
    delta: Rational,
    j: int,
) -> (i: int)
    requires
        crate::clip_edits::shifts(g, blocks, delta) is Some,
        0 <= j < blocks.len(),
        g.span(blocks[j]) is Some,
    ensures
        0 <= i < crate::clip_edits::shifts(g, blocks, delta).unwrap().len(),
        crate::rational::sum_of(g.span(blocks[j]).unwrap().in_point, delta) is Some,
        crate::clip_edits::shifts(g, blocks, delta).unwrap()[i] matches Command::SetSpan {
            block,
            before,
            after,
        } && block == blocks[j] && crate::spans::moved(
            before,
            crate::rational::sum_of(before.in_point, delta).unwrap(),
        ) == Some(after) && g.span(block) == Some(before),
    decreases blocks.len(),
{
    let init = blocks.drop_last();
    let done = crate::clip_edits::shifts(g, init, delta).unwrap();
    if j == blocks.len() - 1 {
        done.len() as int
    } else {
        assert(init[j] == blocks[j]);
        let i = lemma_shift_of(g, init, delta, j);
        assert(crate::clip_edits::shifts(g, blocks, delta).unwrap()[i] == done[i]);
        i
    }
}

/// A ripple trim puts the edge where it was asked to be. The other end of the
/// clip stays; the media window moves with the in point.
pub proof fn lemma_ripple_lands(
    g: crate::graph::GraphModel,
    clip: NodeId,
    start_edge: bool,
    new_frame: i64,
)
    requires
        listed_once(g),
        crate::clip_edits::ripple_plan(g, clip, start_edge, new_frame) is Ok,
        crate::clip_edits::ripple_plan(g, clip, start_edge, new_frame).unwrap().len() > 0,
        canonical_span(g.span(clip).unwrap()),
        crate::spans::canonical(
            crate::timebase::time_of(new_frame, g.clip_time_base(clip).unwrap()),
        ),
    ensures
        ({
            let new = crate::timebase::time_of(new_frame, g.clip_time_base(clip).unwrap());
            let before = g.span(clip).unwrap();
            let after = g.redone_all(
                crate::clip_edits::ripple_plan(g, clip, start_edge, new_frame).unwrap(),
            ).span(clip).unwrap();
            if start_edge {
                &&& after.in_point == new
                &&& after.out_point == before.out_point
                &&& Some(after.media_in) == crate::rational::sum_of(
                    before.media_in,
                    crate::rational::difference_of(new, before.in_point).unwrap(),
                )
            } else {
                &&& after.in_point == before.in_point
                &&& after.out_point == new
                &&& after.media_in == before.media_in
            }
        }),
{
    let commands = crate::clip_edits::ripple_plan(g, clip, start_edge, new_frame).unwrap();
    let span = g.span(clip).unwrap();
    let new = crate::timebase::time_of(new_frame, g.clip_time_base(clip).unwrap());
    lemma_ripple_respans(g, clip, start_edge, new_frame);
    lemma_respanned(g, commands, 0);
    if start_edge {
        crate::spans::lemma_head_trim(span, new);
    } else {
        crate::time_laws::lemma_there(new, span.in_point);
    }
}

/// A ripple trim moves everything behind the clip as one: blocks that met
/// still meet. With the end edge trimmed, that holds from the clip on.
pub proof fn lemma_ripple_keeps_joins(
    g: crate::graph::GraphModel,
    clip: NodeId,
    start_edge: bool,
    new_frame: i64,
    i: int,
    k: int,
)
    requires
        listed_once(g),
        crate::clip_edits::ripple_plan(g, clip, start_edge, new_frame) is Ok,
        crate::clip_edits::ripple_plan(g, clip, start_edge, new_frame).unwrap().len() > 0,
        crate::list::position_of(
            g.track(g.track_of(clip).unwrap()).unwrap().blocks,
            clip,
        ) == Some(i),
        i <= k < g.track(g.track_of(clip).unwrap()).unwrap().blocks.len() - 1,
        start_edge ==> i < k,
        ({
            let blocks = g.track(g.track_of(clip).unwrap()).unwrap().blocks;
            &&& g.span(blocks[k]) is Some
            &&& g.span(blocks[k + 1]) is Some
            &&& canonical_span(g.span(blocks[k]).unwrap())
            &&& canonical_span(g.span(blocks[k + 1]).unwrap())
            &&& g.span(blocks[k]).unwrap().out_point == g.span(blocks[k + 1]).unwrap().in_point
        }),
        crate::spans::canonical(
            crate::timebase::time_of(new_frame, g.clip_time_base(clip).unwrap()),
        ),
        canonical_span(g.span(clip).unwrap()),
    ensures
        ({
            let blocks = g.track(g.track_of(clip).unwrap()).unwrap().blocks;
            let now = g.redone_all(
                crate::clip_edits::ripple_plan(g, clip, start_edge, new_frame).unwrap(),
            );
            now.span(blocks[k]).unwrap().out_point == now.span(blocks[k + 1]).unwrap().in_point
        }),
{
    let commands = crate::clip_edits::ripple_plan(g, clip, start_edge, new_frame).unwrap();
    let blocks = g.track(g.track_of(clip).unwrap()).unwrap().blocks;
    let behind = blocks.subrange(i + 1, blocks.len() as int);
    let span = g.span(clip).unwrap();
    let new = crate::timebase::time_of(new_frame, g.clip_time_base(clip).unwrap());
    let (length, delta) = crate::clip_edits::ripple_amounts(span, start_edge, new).unwrap();
    let tail = crate::clip_edits::shifts(g, behind, delta).unwrap();
    crate::list::lemma_position(blocks, clip);
    lemma_ripple_respans(g, clip, start_edge, new_frame);
    let edge = if start_edge {
        span.in_point
    } else {
        span.out_point
    };
    crate::rational::lemma_sum_of_difference(new, edge);
    crate::time_laws::lemma_there(new, edge);
    assert(behind[k - i] == blocks[k + 1]);
    let b = lemma_shift_of(g, behind, delta, k - i);
    assert(commands[b + 1] == tail[b]);
    lemma_respanned(g, commands, b + 1);
    if k == i {
        lemma_respanned(g, commands, 0);
        crate::time_laws::lemma_there(new, span.in_point);
    } else {
        assert(behind[k - i - 1] == blocks[k]);
        let a = lemma_shift_of(g, behind, delta, k - i - 1);
        assert(commands[a + 1] == tail[a]);
        lemma_respanned(g, commands, a + 1);
        lemma_shift_keeps_joins(g.span(blocks[k]).unwrap(), g.span(blocks[k + 1]).unwrap(), delta);
    }
}

} // verus!
