//! How far transitions reach: to either side of a seam, or into one clip.

use crate::errors::EditError;
use crate::graph::{NodeId, Transition};
use crate::rational::Rational;
use crate::transitions::TransitionPlan;
use vstd::prelude::*;

verus! {

/// Whether `t` starts `half` before `seam`, ends `half` behind it, and keeps
/// `half` for each of the two clips.
pub open spec fn straddles(t: Transition, seam: Rational, half: Rational) -> bool {
    &&& crate::measures::later_by(t.core.in_point, seam, half)
    &&& crate::measures::later_by(seam, t.core.out_point, half)
    &&& t.in_offset == half
    &&& t.out_offset == half
}

/// Whether `t` starts at `from`, lasts for `length`, and keeps all of it for
/// the clip behind.
pub open spec fn leads_in(t: Transition, from: Rational, length: Rational) -> bool {
    &&& t.core.in_point == from
    &&& crate::measures::later_by(from, t.core.out_point, length)
    &&& t.in_offset == (Rational { num: 0, den: 1 })
    &&& t.out_offset == length
}

/// Whether `t` ends at `to`, lasts for `length`, and keeps all of it for the
/// clip before.
pub open spec fn leads_out(t: Transition, to: Rational, length: Rational) -> bool {
    &&& t.core.out_point == to
    &&& crate::measures::later_by(t.core.in_point, to, length)
    &&& t.in_offset == length
    &&& t.out_offset == (Rational { num: 0, den: 1 })
}

/// A transition at a seam reaches as far before the seam as behind it, on the
/// track of both clips and behind the first of them.
pub proof fn lemma_seam_span(
    g: crate::graph::GraphModel,
    prev: NodeId,
    next: NodeId,
    half: Rational,
)
    requires
        crate::transitions::seam_plan(g, prev, next, half) is Ok,
        g.clip(prev).unwrap().out_point.den > 0,
    ensures
        ({
            let plan = crate::transitions::seam_plan(g, prev, next, half).unwrap();
            let left = g.clip(prev).unwrap();
            let right = g.clip(next).unwrap();
            &&& g.clip(prev) is Some
            &&& g.clip(next) is Some
            &&& straddles(plan.transition, left.out_point, half)
            &&& straddles(plan.transition, right.in_point, half)
            &&& left.track == Some(plan.track)
            &&& right.track == Some(plan.track)
            &&& plan.anchor == Some(prev)
            &&& plan.transition.core.track is None
            &&& plan.transition.core.media_in == (Rational { num: 0, den: 1 })
            &&& plan.transition.core.speed_bits == 0x3ff0_0000_0000_0000
        }),
{
    let plan = crate::transitions::seam_plan(g, prev, next, half).unwrap();
    let seam = g.clip(prev).unwrap().out_point;
    let other = g.clip(next).unwrap().in_point;
    crate::measures::lemma_difference_is_earlier(seam, half, seam);
    crate::measures::lemma_sum_is_later(seam, half, seam);
    lemma_moved_over(plan.transition.core.in_point, seam, other, half);
    lemma_moved_from(seam, other, plan.transition.core.out_point, half);
}

/// What lies `d` behind `a` does so wherever its instant is written.
proof fn lemma_moved_over(a: Rational, b: Rational, c: Rational, d: Rational)
    requires
        crate::measures::later_by(a, b, d),
        crate::rational::same_time(b, c),
    ensures
        crate::measures::later_by(a, c, d),
{
    let (an, ad) = (a.num as int, a.den as int);
    let (bn, bd) = (b.num as int, b.den as int);
    let (cn, cd) = (c.num as int, c.den as int);
    let (dn, dd) = (d.num as int, d.den as int);
    assert((cn * ad - an * cd) * bd == (bn * ad - an * bd) * cd) by (nonlinear_arith)
        requires
            bn * cd == cn * bd,
    ;
    let x = cn * ad - an * cd;
    let y = bn * ad - an * bd;
    assert(x * dd == dn * (ad * cd)) by (nonlinear_arith)
        requires
            x * bd == y * cd,
            y * dd == dn * (ad * bd),
            bd > 0,
    ;
}

proof fn lemma_moved_from(a: Rational, c: Rational, b: Rational, d: Rational)
    requires
        crate::measures::later_by(a, b, d),
        crate::rational::same_time(a, c),
    ensures
        crate::measures::later_by(c, b, d),
{
    let (an, ad) = (a.num as int, a.den as int);
    let (bn, bd) = (b.num as int, b.den as int);
    let (cn, cd) = (c.num as int, c.den as int);
    let (dn, dd) = (d.num as int, d.den as int);
    assert((bn * cd - cn * bd) * ad == (bn * ad - an * bd) * cd) by (nonlinear_arith)
        requires
            an * cd == cn * ad,
    ;
    let x = bn * cd - cn * bd;
    let y = bn * ad - an * bd;
    assert(x * dd == dn * (cd * bd)) by (nonlinear_arith)
        requires
            x * ad == y * cd,
            y * dd == dn * (ad * bd),
            ad > 0,
    ;
}

/// Whether some block of `blocks` is a transition that the first clip feeds
/// from before and the second from behind.
pub open spec fn has_transition(
    g: crate::graph::GraphModel,
    blocks: Seq<NodeId>,
    prev: NodeId,
    next: NodeId,
) -> bool {
    exists|b: NodeId|
        blocks.contains(b) && g.transition(b) is Some && #[trigger] g.connected_output(
            b,
            crate::graph::OUT_BLOCK@,
        ) == Some(prev) && g.connected_output(b, crate::graph::IN_BLOCK@) == Some(next)
}

/// A seam takes a transition exactly when its length is positive, two clips
/// meet there on one track, the second listed right behind the first, and no
/// transition joins them yet; which of these fails first is what the refusal
/// says. Only a time beyond 64 bits refuses any other.
pub proof fn lemma_seam_refused(
    g: crate::graph::GraphModel,
    prev: NodeId,
    next: NodeId,
    half: Rational,
    from: Rational,
    to: Rational,
)
    ensures
        ({
            let r = crate::transitions::seam_plan(g, prev, next, half);
            let left = g.clip(prev).unwrap();
            let right = g.clip(next).unwrap();
            let track = left.track.unwrap();
            let blocks = g.track(track).unwrap().blocks;
            if half.den <= 0 || half.num <= 0 {
                r == Err::<TransitionPlan, EditError>(EditError::TransitionLength)
            } else if g.clip(prev) is None {
                r == Err::<TransitionPlan, EditError>(EditError::OutgoingNotAClip)
            } else if g.clip(next) is None {
                r == Err::<TransitionPlan, EditError>(EditError::IncomingNotAClip)
            } else if !crate::rational::same_time(left.out_point, right.in_point) {
                r == Err::<TransitionPlan, EditError>(EditError::NotContiguous)
            } else if left.track is None {
                r == Err::<TransitionPlan, EditError>(EditError::OutgoingNotOnTrack)
            } else if right.track != left.track {
                r == Err::<TransitionPlan, EditError>(EditError::DifferentTracks)
            } else if g.track(track) is None {
                r == Err::<TransitionPlan, EditError>(EditError::TransitionTrack)
            } else {
                &&& blocks.no_duplicates() && !(exists|p: int| #[trigger]
                    crate::transition_laws::at_gap(blocks, p, Some(prev), Some(next)))
                    ==> r == Err::<TransitionPlan, EditError>(EditError::NotAdjacent)
                &&& r is Ok ==> exists|p: int| #[trigger]
                    crate::transition_laws::at_gap(blocks, p, Some(prev), Some(next))
                &&& has_transition(g, blocks, prev, next) ==> r == Err::<TransitionPlan, EditError>(
                    EditError::SeamTaken,
                ) || r == Err::<TransitionPlan, EditError>(EditError::NotAdjacent)
                &&& blocks.no_duplicates() && (exists|p: int| #[trigger]
                    crate::transition_laws::at_gap(blocks, p, Some(prev), Some(next))) ==> {
                    &&& has_transition(g, blocks, prev, next) <==> r == Err::<
                        TransitionPlan,
                        EditError,
                    >(EditError::SeamTaken)
                    &&& !has_transition(g, blocks, prev, next) && crate::measures::later_by(
                        from,
                        left.out_point,
                        half,
                    ) && crate::measures::later_by(left.out_point, to, half) ==> r is Ok
                }
            }
        }),
{
    if let (Some(left), Some(right)) = (g.clip(prev), g.clip(next)) {
        if let Some(track) = left.track {
            if let Some(t) = g.track(track) {
                let blocks = t.blocks;
                crate::list::lemma_position(blocks, prev);
                if crate::transitions::adjacent(blocks, prev, next) {
                    let i = crate::list::position_of(blocks, prev).unwrap();
                    assert(crate::transition_laws::at_gap(blocks, i + 1, Some(prev), Some(next)));
                }
                if blocks.no_duplicates() && exists|p: int| #[trigger]
                    crate::transition_laws::at_gap(blocks, p, Some(prev), Some(next)) {
                    let p = choose|p: int| #[trigger]
                        crate::transition_laws::at_gap(blocks, p, Some(prev), Some(next));
                    assert(blocks.contains(blocks[p - 1]));
                    assert(crate::transitions::adjacent(blocks, prev, next));
                }
                if crate::transitions::joined_among(g, blocks, prev, next) {
                    let i = choose|i: int|
                        0 <= i < blocks.len() && crate::transitions::joins(
                            g,
                            #[trigger] blocks[i],
                            prev,
                            next,
                        );
                    assert(blocks.contains(blocks[i]));
                    assert(has_transition(g, blocks, prev, next));
                }
                if has_transition(g, blocks, prev, next) {
                    let b = choose|b: NodeId|
                        blocks.contains(b) && g.transition(b) is Some
                            && #[trigger] g.connected_output(b, crate::graph::OUT_BLOCK@) == Some(
                            prev,
                        ) && g.connected_output(b, crate::graph::IN_BLOCK@) == Some(next);
                    let i = choose|i: int| 0 <= i < blocks.len() && blocks[i] == b;
                    assert(crate::transitions::joins(g, blocks[i], prev, next));
                }
                if crate::measures::later_by(from, left.out_point, half) {
                    crate::measures::lemma_difference_is_earlier(left.out_point, half, from);
                }
                if crate::measures::later_by(left.out_point, to, half) {
                    crate::measures::lemma_sum_is_later(left.out_point, half, to);
                }
            }
        }
    }
}

/// A transition on one edge of a clip reaches its length into the clip: from
/// the start of it, or up to the end of it.
pub proof fn lemma_edge_span(
    g: crate::graph::GraphModel,
    clip: NodeId,
    start_edge: bool,
    length: Rational,
)
    requires
        crate::transitions::edge_plan(g, clip, start_edge, length) is Ok,
        g.clip(clip).unwrap().in_point.den > 0,
        g.clip(clip).unwrap().out_point.den > 0,
    ensures
        ({
            let plan = crate::transitions::edge_plan(g, clip, start_edge, length).unwrap();
            let core = g.clip(clip).unwrap();
            &&& g.clip(clip) is Some
            &&& start_edge ==> leads_in(plan.transition, core.in_point, length)
            &&& !start_edge ==> leads_out(plan.transition, core.out_point, length)
            &&& core.track == Some(plan.track)
            &&& plan.transition.core.track is None
            &&& plan.transition.core.media_in == (Rational { num: 0, den: 1 })
            &&& plan.transition.core.speed_bits == 0x3ff0_0000_0000_0000
        }),
{
    let core = g.clip(clip).unwrap();
    crate::measures::lemma_difference_is_earlier(core.out_point, length, length);
    crate::measures::lemma_sum_is_later(core.in_point, length, length);
}

/// An edge takes a transition exactly when its length is positive and the
/// clip is listed on its track with no transition on that edge yet; which of
/// these fails first is what the refusal says. Only a time beyond 64 bits
/// refuses any other.
pub proof fn lemma_edge_refused(
    g: crate::graph::GraphModel,
    clip: NodeId,
    start_edge: bool,
    length: Rational,
    end: Rational,
)
    ensures
        ({
            let r = crate::transitions::edge_plan(g, clip, start_edge, length);
            let core = g.clip(clip).unwrap();
            let track = core.track.unwrap();
            let blocks = g.track(track).unwrap().blocks;
            if length.den <= 0 || length.num <= 0 {
                r == Err::<TransitionPlan, EditError>(EditError::TransitionLength)
            } else if g.clip(clip) is None {
                r == Err::<TransitionPlan, EditError>(EditError::EdgeNotAClip)
            } else if core.track is None {
                r == Err::<TransitionPlan, EditError>(EditError::EdgeNotOnTrack)
            } else if g.track(track) is None {
                r == Err::<TransitionPlan, EditError>(EditError::TransitionTrack)
            } else if !blocks.contains(clip) {
                r == Err::<TransitionPlan, EditError>(EditError::EdgeNotListed)
            } else if g.edge_transition(clip, start_edge) is Some {
                r == Err::<TransitionPlan, EditError>(EditError::EdgeTaken)
            } else {
                &&& r is Err ==> r == Err::<TransitionPlan, EditError>(EditError::TimeOutOfRange)
                &&& start_edge && crate::measures::later_by(core.in_point, end, length) ==> r is Ok
                &&& !start_edge && crate::measures::later_by(end, core.out_point, length) ==> r is Ok
            }
        }),
{
    if let Some(core) = g.clip(clip) {
        if let Some(track) = core.track {
            if let Some(t) = g.track(track) {
                crate::list::lemma_position(t.blocks, clip);
            }
        }
        if crate::measures::later_by(core.in_point, end, length) {
            crate::measures::lemma_sum_is_later(core.in_point, length, end);
        }
        if crate::measures::later_by(end, core.out_point, length) {
            crate::measures::lemma_difference_is_earlier(core.out_point, length, end);
        }
    }
}

/// An edge carries a transition exactly when the clip's neighbour on that
/// side is one that the clip feeds from the facing side.
pub proof fn lemma_edge_carries(
    g: crate::graph::GraphModel,
    clip: NodeId,
    start_edge: bool,
    track: NodeId,
    i: int,
)
    requires
        g.track_of(clip) == Some(track),
        g.track(track) is Some,
        g.track(track).unwrap().blocks.no_duplicates(),
        0 <= i < g.track(track).unwrap().blocks.len(),
        g.track(track).unwrap().blocks[i] == clip,
    ensures
        ({
            let blocks = g.track(track).unwrap().blocks;
            &&& start_edge && i > 0 && g.connected_output(
                blocks[i - 1],
                crate::graph::IN_BLOCK@,
            ) == Some(clip) ==> g.edge_transition(clip, true) == Some(blocks[i - 1])
            &&& !start_edge && i + 1 < blocks.len() && g.connected_output(
                blocks[i + 1],
                crate::graph::OUT_BLOCK@,
            ) == Some(clip) ==> g.edge_transition(clip, false) == Some(blocks[i + 1])
            &&& start_edge && (i == 0 || g.connected_output(
                blocks[i - 1],
                crate::graph::IN_BLOCK@,
            ) != Some(clip)) ==> g.edge_transition(clip, true) is None
            &&& !start_edge && (i + 1 == blocks.len() || g.connected_output(
                blocks[i + 1],
                crate::graph::OUT_BLOCK@,
            ) != Some(clip)) ==> g.edge_transition(clip, false) is None
        }),
{
    let blocks = g.track(track).unwrap().blocks;
    assert(blocks.contains(blocks[i]));
    crate::list::lemma_position(blocks, clip);
}

/// Whether `n` is a new transition that joins what feeds it as a seam or an
/// edge of `g` asks.
#[verifier::opaque]
pub open spec fn built_for(
    g: crate::graph::GraphModel,
    half: Rational,
    length: Rational,
    n: Option<crate::graph::NodeModel>,
    from: Option<NodeId>,
    to: Option<NodeId>,
) -> bool {
    match (from, to) {
        (Some(p), Some(q)) => crate::transitions::seam_plan(g, p, q, half) matches Ok(plan) && n
            == Some(crate::transitions::transition_node(plan.transition)),
        (Some(p), None) => crate::transitions::edge_plan(g, p, false, length) matches Ok(plan) && n
            == Some(crate::transitions::transition_node(plan.transition)),
        (None, Some(q)) => crate::transitions::edge_plan(g, q, true, length) matches Ok(plan) && n
            == Some(crate::transitions::transition_node(plan.transition)),
        (None, None) => false,
    }
}

proof fn lemma_seam_nodes(
    g: crate::graph::GraphModel,
    b: crate::default_transition::Batch,
    seams: Seq<(NodeId, NodeId)>,
    half: Rational,
    length: Rational,
)
    requires
        crate::transition_laws::orderly(g),
        crate::transition_laws::grown(g, b.graph),
        b.graph.slots.len() + seams.len() < u64::MAX,
        forall|i: int|
            0 <= i < seams.len() ==> (#[trigger] seams[i]).0 < g.slots.len() && seams[i].1
                < g.slots.len(),
    ensures
        ({
            let r = crate::default_transition::with_seams(b, seams, half);
            let n = b.graph.slots.len() as int;
            let steps = crate::transition_laws::seam_steps(g, seams, half, n);
            &&& r.graph.slots.len() == n + steps.len()
            &&& forall|id: NodeId| id < n ==> #[trigger] r.graph.node(id) == b.graph.node(id)
            &&& forall|j: int|
                0 <= j < steps.len() ==> (#[trigger] steps[j]).block == n + j && built_for(
                    g,
                    half,
                    length,
                    r.graph.node(steps[j].block),
                    steps[j].from,
                    steps[j].to,
                )
        }),
    decreases seams.len(),
{
    if seams.len() > 0 {
        let n = b.graph.slots.len() as int;
        let init = seams.drop_last();
        let (prev, next) = seams.last();
        assert forall|i: int| 0 <= i < init.len() implies (#[trigger] init[i]).0 < g.slots.len()
            && init[i].1 < g.slots.len() by {
            assert(init[i] == seams[i]);
        }
        assert(seams[seams.len() - 1] == (prev, next));
        lemma_seam_nodes(g, b, init, half, length);
        crate::transition_laws::lemma_seam_batch(g, b, init, half);
        let done = crate::default_transition::with_seams(b, init, half);
        let head = crate::transition_laws::seam_steps(g, init, half, n);
        crate::transition_laws::lemma_seam_plan_grown(g, done.graph, prev, next, half);
        if let Ok(plan) = crate::transitions::seam_plan(g, prev, next, half) {
            let more = done.graph.appended(crate::transitions::transition_node(plan.transition));
            let steps = crate::transition_laws::seam_steps(g, seams, half, n);
            assert forall|id: NodeId| id < n implies #[trigger] more.node(id) == b.graph.node(
                id,
            ) by {
                assert(done.graph.node(id) == b.graph.node(id));
            }
            assert forall|j: int| 0 <= j < steps.len() implies (#[trigger] steps[j]).block == n + j
                && built_for(
                g,
                half,
                length,
                more.node(steps[j].block),
                steps[j].from,
                steps[j].to,
            ) by {
                if j < head.len() {
                    assert(steps[j] == head[j]);
                    assert(more.node(head[j].block) == done.graph.node(head[j].block));
                } else {
                    reveal(built_for);
                }
            }
        }
    }
}

proof fn lemma_edge_nodes(
    g: crate::graph::GraphModel,
    b: crate::default_transition::Batch,
    edges: Seq<(NodeId, bool)>,
    half: Rational,
    length: Rational,
)
    requires
        crate::transition_laws::orderly(g),
        crate::transition_laws::grown(g, b.graph),
        b.graph.slots.len() + edges.len() < u64::MAX,
        forall|i: int| 0 <= i < edges.len() ==> (#[trigger] edges[i]).0 < g.slots.len(),
    ensures
        ({
            let r = crate::default_transition::with_edges(b, edges, length);
            let n = b.graph.slots.len() as int;
            let steps = crate::transition_laws::edge_steps(g, edges, length, n);
            &&& r.graph.slots.len() == n + steps.len()
            &&& forall|id: NodeId| id < n ==> #[trigger] r.graph.node(id) == b.graph.node(id)
            &&& forall|j: int|
                0 <= j < steps.len() ==> (#[trigger] steps[j]).block == n + j && built_for(
                    g,
                    half,
                    length,
                    r.graph.node(steps[j].block),
                    steps[j].from,
                    steps[j].to,
                )
        }),
    decreases edges.len(),
{
    if edges.len() > 0 {
        let n = b.graph.slots.len() as int;
        let init = edges.drop_last();
        let (clip, start_edge) = edges.last();
        assert forall|i: int| 0 <= i < init.len() implies (#[trigger] init[i]).0
            < g.slots.len() by {
            assert(init[i] == edges[i]);
        }
        assert(edges[edges.len() - 1] == (clip, start_edge));
        lemma_edge_nodes(g, b, init, half, length);
        crate::transition_laws::lemma_edge_batch(g, b, init, length);
        let done = crate::default_transition::with_edges(b, init, length);
        let head = crate::transition_laws::edge_steps(g, init, length, n);
        crate::transition_laws::lemma_edge_plan_grown(g, done.graph, clip, start_edge, length);
        if let Ok(plan) = crate::transitions::edge_plan(g, clip, start_edge, length) {
            let more = done.graph.appended(crate::transitions::transition_node(plan.transition));
            let steps = crate::transition_laws::edge_steps(g, edges, length, n);
            assert forall|id: NodeId| id < n implies #[trigger] more.node(id) == b.graph.node(
                id,
            ) by {
                assert(done.graph.node(id) == b.graph.node(id));
            }
            assert forall|j: int| 0 <= j < steps.len() implies (#[trigger] steps[j]).block == n + j
                && built_for(
                g,
                half,
                length,
                more.node(steps[j].block),
                steps[j].from,
                steps[j].to,
            ) by {
                if j < head.len() {
                    assert(steps[j] == head[j]);
                    assert(more.node(head[j].block) == done.graph.node(head[j].block));
                } else {
                    reveal(built_for);
                }
            }
        }
    }
}

/// Whether the transition `t`, fed from the two sides, reaches as far as a
/// default transition does there.
pub open spec fn reaches(
    g: crate::graph::GraphModel,
    half: Rational,
    length: Rational,
    t: Transition,
    sides: (Option<NodeId>, Option<NodeId>),
) -> bool {
    match sides {
        (Some(p), Some(_)) => g.clip(p) is Some && straddles(
            t,
            g.clip(p).unwrap().out_point,
            half,
        ),
        (Some(p), None) => g.clip(p) is Some && leads_out(t, g.clip(p).unwrap().out_point, length),
        (None, Some(q)) => g.clip(q) is Some && leads_in(t, g.clip(q).unwrap().in_point, length),
        (None, None) => false,
    }
}

/// Whether every clip lies between defined times.
pub open spec fn clips_defined(g: crate::graph::GraphModel) -> bool {
    forall|id: NodeId|
        #![trigger g.clip(id)]
        g.clip(id) matches Some(core) ==> core.in_point.den > 0 && core.out_point.den > 0
}

/// Every transition that a row of default transitions adds reaches as far as
/// asked: half its length to either side of a seam, its whole length into the
/// clip on an edge of its own.
pub proof fn lemma_default_transition_spans(
    g: crate::graph::GraphModel,
    lists: Seq<NodeId>,
    clips: Seq<NodeId>,
    half: Rational,
    length: Rational,
    id: NodeId,
)
    requires
        crate::transition_laws::orderly(g),
        clips_defined(g),
        g.slots.len() + 4 * clips.len() < u64::MAX,
        g.slots.len() <= id,
        id < g.slots.len() + crate::default_transition::default_batch(
            g,
            lists,
            clips,
            half,
            length,
        ).created,
    ensures
        ({
            let b = crate::default_transition::default_batch(g, lists, clips, half, length);
            let now = b.graph.redone_all(b.commands);
            &&& now.transition(id) is Some
            &&& reaches(
                g,
                half,
                length,
                now.transition(id).unwrap(),
                crate::transition_counts::sides(now, id),
            )
        }),
{
    let n = g.slots.len() as int;
    let b = crate::default_transition::default_batch(g, lists, clips, half, length);
    let w = crate::default_transition::wanted(g, lists, clips);
    let none = crate::default_transition::Batch { graph: g, commands: Seq::empty(), created: 0 };
    let steps = crate::transition_laws::default_steps(g, lists, clips, half, length);
    crate::transition_counts::lemma_batch_steps(g, lists, clips, half, length);
    crate::transition_counts::lemma_batch_placed(g, lists, clips, half, length);
    crate::transition_counts::lemma_counted(g, b.graph, steps);
    crate::transition_counts::lemma_wanted_exist(g, lists, clips);
    crate::transition_laws::lemma_seam_batch(g, none, w.seams, half);
    let seams = crate::default_transition::with_seams(none, w.seams, half);
    lemma_seam_nodes(g, none, w.seams, half, length);
    lemma_edge_nodes(g, seams, w.edges(), half, length);
    let first = crate::transition_laws::seam_steps(g, w.seams, half, n);
    let second = crate::transition_laws::edge_steps(g, w.edges(), length, n + first.len());
    let now = b.graph.redone_all(b.commands);
    let j = id - n;
    let s = steps[j];
    assert(s.block == id);
    if j < first.len() {
        assert(s == first[j]);
        assert(b.graph.node(id) == seams.graph.node(id));
    } else {
        assert(s == second[j - first.len()]);
    }
    assert(built_for(g, half, length, b.graph.node(id), s.from, s.to));
    reveal(built_for);
    let node = crate::transition_laws::entered_node(b.graph.node(id).unwrap(), s);
    assert(now.node(id) == Some(node));
    crate::transition_laws::lemma_wired(node, s.from, s.to);
    match (s.from, s.to) {
        (Some(p), Some(q)) => {
            assert(g.clip(p) is Some);
            lemma_seam_span(g, p, q, half);
        },
        (Some(p), None) => {
            assert(g.clip(p) is Some);
            lemma_edge_span(g, p, false, length);
        },
        (None, Some(q)) => {
            assert(g.clip(q) is Some);
            lemma_edge_span(g, q, true, length);
        },
        (None, None) => {},
    }
}

/// Whether the first clip ends where the second starts.
pub open spec fn meets(g: crate::graph::GraphModel, a: NodeId, b: NodeId) -> bool {
    &&& g.clip(a) is Some
    &&& g.clip(b) is Some
    &&& crate::rational::same_time(g.clip(a).unwrap().out_point, g.clip(b).unwrap().in_point)
}

/// Which seams a selected clip asks a default transition for, and when it asks
/// for one on either edge: a clip of one of the lists' tracks asks at the
/// seams with the blocks right before and right behind it that it meets; when
/// it meets neither, and feeds no block of its track, on both its edges.
pub proof fn lemma_selected(
    g: crate::graph::GraphModel,
    lists: Seq<NodeId>,
    clip: NodeId,
    track: NodeId,
    i: int,
    seam: (NodeId, NodeId),
)
    requires
        g.track_of(clip) == Some(track),
        g.track(track) is Some,
        g.track(track).unwrap().blocks.no_duplicates(),
        0 <= i < g.track(track).unwrap().blocks.len(),
        g.track(track).unwrap().blocks[i] == clip,
    ensures
        ({
            let t = g.track(track).unwrap();
            let blocks = t.blocks;
            let here = t.track_list is Some && lists.contains(t.track_list.unwrap()) && g.clip(
                clip,
            ) is Some;
            let head = i > 0 && meets(g, blocks[i - 1], clip);
            let tail = i + 1 < blocks.len() && meets(g, clip, blocks[i + 1]);
            &&& crate::transition_laws::asks_seam(g, lists, clip, seam) <==> here && ((head && seam
                == (blocks[i - 1], clip)) || (tail && seam == (clip, blocks[i + 1])))
            &&& crate::transition_laws::free(g, lists, clip) <==> here && !head && !tail && forall|
                k: int,
            |
                0 <= k < blocks.len() ==> g.connected_output(
                    #[trigger] blocks[k],
                    crate::graph::OUT_BLOCK@,
                ) != Some(clip) && g.connected_output(blocks[k], crate::graph::IN_BLOCK@) != Some(
                    clip,
                )
        }),
{
    let blocks = g.track(track).unwrap().blocks;
    assert(blocks.contains(blocks[i]));
    crate::list::lemma_position(blocks, clip);
    if crate::default_transition::wired_among(g, blocks, clip) {
        let k = choose|k: int|
            0 <= k < blocks.len() && crate::default_transition::wired_to(
                g,
                #[trigger] blocks[k],
                clip,
            );
        assert(crate::default_transition::wired_to(g, blocks[k], clip));
    } else {
        assert forall|k: int| 0 <= k < blocks.len() implies g.connected_output(
            #[trigger] blocks[k],
            crate::graph::OUT_BLOCK@,
        ) != Some(clip) && g.connected_output(blocks[k], crate::graph::IN_BLOCK@) != Some(clip) by {
            assert(!crate::default_transition::wired_to(g, blocks[k], clip));
        }
    }
}

/// A selected clip that is on no track of the lists asks for nothing.
pub proof fn lemma_unselected(
    g: crate::graph::GraphModel,
    lists: Seq<NodeId>,
    clip: NodeId,
    seam: (NodeId, NodeId),
)
    requires
        ({
            let track = g.track_of(clip).unwrap();
            ||| g.track_of(clip) is None
            ||| g.track(track) is None
            ||| g.track(track).unwrap().track_list is None
            ||| !lists.contains(g.track(track).unwrap().track_list.unwrap())
            ||| !g.track(track).unwrap().blocks.contains(clip)
            ||| g.clip(clip) is None
        }),
    ensures
        !crate::transition_laws::asks_seam(g, lists, clip, seam),
        !crate::transition_laws::free(g, lists, clip),
{
    if let Some(track) = g.track_of(clip) {
        if let Some(t) = g.track(track) {
            crate::list::lemma_position(t.blocks, clip);
        }
    }
}

} // verus!
