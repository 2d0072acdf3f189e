//! A row of default transitions in place: every transition is found on the
//! edge it was asked for, and the same request builds nothing more.

use crate::commands::Command;
use crate::graph::{NodeId, IN_BLOCK, OUT_BLOCK};
use crate::rational::Rational;
use crate::transition_laws::Step;
use vstd::prelude::*;

verus! {

/// What is known of `now` after the steps were carried out on `g` with its
/// new nodes.
pub open spec fn in_place(
    g: crate::graph::GraphModel,
    now: crate::graph::GraphModel,
    steps: Seq<Step>,
) -> bool {
    let n = g.slots.len() as int;
    &&& now.slots.len() == n + steps.len()
    &&& forall|id: NodeId|
        id < n && g.track(id) is None ==> #[trigger] now.node(id) == g.node(id)
    &&& forall|id: NodeId|
        #![trigger now.track(id)]
        id < n && g.track(id) is Some ==> {
            let f = now.track(id).unwrap().blocks;
            &&& now.track(id) is Some
            &&& now.node(id) == Some(crate::transition_laws::relisted(g.node(id).unwrap(), f))
            &&& crate::weaving::arranged(g.track(id).unwrap().blocks, f, id, steps, n)
        }
    &&& forall|j: int|
        0 <= j < steps.len() ==> {
            let s = #[trigger] steps[j];
            &&& s.block == n + j
            &&& now.transition(s.block) is Some
            &&& now.connected_output(s.block, OUT_BLOCK@) == s.from
            &&& now.connected_output(s.block, IN_BLOCK@) == s.to
        }
}

proof fn lemma_in_place(
    g: crate::graph::GraphModel,
    lists: Seq<NodeId>,
    clips: Seq<NodeId>,
    half: Rational,
    length: Rational,
)
    requires
        crate::transition_laws::orderly(g),
        g.slots.len() + 4 * clips.len() < u64::MAX,
    ensures
        ({
            let b = crate::default_transition::default_batch(g, lists, clips, half, length);
            let steps = crate::transition_laws::default_steps(g, lists, clips, half, length);
            let w = crate::default_transition::wanted(g, lists, clips);
            &&& in_place(g, b.graph.redone_all(b.commands), steps)
            &&& forall|j: int|
                0 <= j < steps.len() ==> crate::transition_counts::is_of_wanted(
                    g,
                    w,
                    half,
                    length,
                    #[trigger] steps[j],
                )
        }),
{
    let b = crate::default_transition::default_batch(g, lists, clips, half, length);
    let steps = crate::transition_laws::default_steps(g, lists, clips, half, length);
    let n = g.slots.len() as int;
    crate::transition_counts::lemma_batch_steps(g, lists, clips, half, length);
    crate::transition_counts::lemma_batch_placed(g, lists, clips, half, length);
    crate::transition_counts::lemma_counted(g, b.graph, steps);
    let now = b.graph.redone_all(b.commands);
    assert forall|id: NodeId|
        #![trigger now.track(id)]
        id < n && g.track(id) is Some implies {
        let f = now.track(id).unwrap().blocks;
        &&& now.track(id) is Some
        &&& now.node(id) == Some(crate::transition_laws::relisted(g.node(id).unwrap(), f))
        &&& crate::weaving::arranged(g.track(id).unwrap().blocks, f, id, steps, n)
    } by {
        crate::weaving::lemma_woven(g.track(id).unwrap().blocks, id, steps, n);
    }
    assert forall|j: int| 0 <= j < steps.len() implies {
        let s = #[trigger] steps[j];
        &&& s.block == n + j
        &&& now.transition(s.block) is Some
        &&& now.connected_output(s.block, OUT_BLOCK@) == s.from
        &&& now.connected_output(s.block, IN_BLOCK@) == s.to
    } by {
        let s = steps[j];
        let before = b.graph.node(s.block).unwrap();
        assert(crate::transition_laws::untouched(before));
        let node = crate::transition_laws::entered_node(before, s);
        assert(now.node(s.block) == Some(node));
        crate::transition_laws::lemma_wired(node, s.from, s.to);
    }
}

/// What stays of the old nodes: a clip is the clip it was, and every node
/// keeps its connections.
proof fn lemma_old_nodes(
    g: crate::graph::GraphModel,
    now: crate::graph::GraphModel,
    steps: Seq<Step>,
    id: NodeId,
)
    requires
        in_place(g, now, steps),
    ensures
        now.clip(id) is Some ==> id < g.slots.len(),
        now.clip(id) == g.clip(id),
        id < g.slots.len() ==> now.track_of(id) == g.track_of(id),
        id < g.slots.len() ==> now.transition(id) == g.transition(id),
        id < g.slots.len() ==> forall|input: Seq<char>| #[trigger]
            now.connected_output(id, input) == g.connected_output(id, input),
        now.track(id) is Some <==> g.track(id) is Some,
        g.track(id) is Some ==> id < g.slots.len(),
        now.list_of(id) == g.list_of(id),
{
    let n = g.slots.len() as int;
    if id < n {
        if g.track(id) is None {
            assert(now.node(id) == g.node(id));
        } else {
            assert(now.track(id) is Some);
        }
    } else if id < now.slots.len() {
        assert(steps[id - n].block == id);
        assert(now.transition(id) is Some);
    }
}

/// Where a clip stands with the transitions in place, it stood before.
proof fn lemma_stood(
    g: crate::graph::GraphModel,
    now: crate::graph::GraphModel,
    steps: Seq<Step>,
    lists: Seq<NodeId>,
    clip: NodeId,
)
    requires
        crate::transition_laws::orderly(g),
        in_place(g, now, steps),
        crate::default_transition::standing(now, lists, clip) is Some,
    ensures
        ({
            let (f, k) = crate::default_transition::standing(now, lists, clip).unwrap();
            let (b, i) = crate::default_transition::standing(g, lists, clip).unwrap();
            let track = g.track_of(clip).unwrap();
            let n = g.slots.len() as int;
            &&& crate::default_transition::standing(g, lists, clip) is Some
            &&& clip < n
            &&& g.track_of(clip) is Some
            &&& now.track_of(clip) == g.track_of(clip)
            &&& g.track(track) is Some
            &&& now.track(track) is Some
            &&& b == g.track(track).unwrap().blocks
            &&& f == now.track(track).unwrap().blocks
            &&& crate::list::position_of(f, clip) == Some(k)
            &&& crate::list::position_of(b, clip) == Some(i)
            &&& 0 <= k < f.len()
            &&& f[k] == clip
            &&& 0 <= i < b.len()
            &&& b[i] == clip
            &&& b.no_duplicates()
            &&& crate::weaving::arranged(b, f, track, steps, n)
        }),
{
    lemma_old_nodes(g, now, steps, clip);
    let track = now.track_of(clip).unwrap();
    lemma_old_nodes(g, now, steps, track);
    let f = now.track(track).unwrap().blocks;
    let b = g.track(track).unwrap().blocks;
    crate::list::lemma_position(f, clip);
    assert(f.contains(clip) == b.contains(clip));
    crate::list::lemma_position(b, clip);
}

/// Of the steps at a place, one is the last.
proof fn lemma_last_at(steps: Seq<Step>, track: NodeId, anchor: Option<NodeId>) -> (j: int)
    requires
        crate::weaving::some_at(steps, track, anchor),
    ensures
        0 <= j < steps.len(),
        crate::weaving::at_place(steps[j], track, anchor),
        crate::weaving::latest(steps, j),
    decreases steps.len(),
{
    let last = steps.len() - 1;
    if crate::weaving::at_place(steps[last], track, anchor) {
        last
    } else {
        let init = steps.drop_last();
        let k = choose|k: int|
            0 <= k < steps.len() && crate::weaving::at_place(#[trigger] steps[k], track, anchor);
        assert(crate::weaving::at_place(init[k], track, anchor));
        let j = lemma_last_at(init, track, anchor);
        assert(steps[j] == init[j]);
        assert forall|m: int| j < m < steps.len() implies !crate::weaving::at_place(
            #[trigger] steps[m],
            steps[j].track,
            steps[j].anchor,
        ) by {
            if m < last {
                assert(init[m] == steps[m]);
            }
        }
        j
    }
}

/// Of the steps at a place, one is the first.
proof fn lemma_first_at(steps: Seq<Step>, track: NodeId, anchor: Option<NodeId>) -> (j: int)
    requires
        crate::weaving::some_at(steps, track, anchor),
    ensures
        0 <= j < steps.len(),
        crate::weaving::at_place(steps[j], track, anchor),
        crate::weaving::earliest(steps, j),
    decreases steps.len(),
{
    let last = steps.len() - 1;
    let init = steps.drop_last();
    if crate::weaving::some_at(init, track, anchor) {
        let j = lemma_first_at(init, track, anchor);
        assert(steps[j] == init[j]);
        assert forall|m: int| 0 <= m < j implies !crate::weaving::at_place(
            #[trigger] steps[m],
            steps[j].track,
            steps[j].anchor,
        ) by {
            assert(init[m] == steps[m]);
        }
        j
    } else {
        let k = choose|k: int|
            0 <= k < steps.len() && crate::weaving::at_place(#[trigger] steps[k], track, anchor);
        if k < last {
            assert(crate::weaving::at_place(init[k], track, anchor));
        }
        assert forall|m: int| 0 <= m < last implies !crate::weaving::at_place(
            #[trigger] steps[m],
            track,
            anchor,
        ) by {
            assert(init[m] == steps[m]);
        }
        last
    }
}

/// Whether a step enters the transition of the seam behind index `i`.
pub open spec fn joins_behind(
    g: crate::graph::GraphModel,
    w: crate::default_transition::Wanted,
    half: Rational,
    b: Seq<NodeId>,
    i: int,
    s: Step,
) -> bool {
    &&& 0 <= i < b.len() - 1
    &&& s.from == Some(b[i])
    &&& s.to == Some(b[i + 1])
    &&& w.seams.contains((b[i], b[i + 1]))
    &&& crate::transitions::seam_plan(g, b[i], b[i + 1], half) is Ok
}

/// Whether a step enters the head of the lone clip at index `i`.
pub open spec fn opens(
    g: crate::graph::GraphModel,
    lists: Seq<NodeId>,
    b: Seq<NodeId>,
    i: int,
    s: Step,
) -> bool {
    &&& 0 <= i < b.len()
    &&& s.from is None
    &&& s.to == Some(b[i])
    &&& crate::default_transition::standing(g, lists, b[i]) == Some((b, i))
    &&& crate::transition_laws::free(g, lists, b[i])
}

/// Whether a step enters the tail of the lone clip at index `i`.
pub open spec fn closes(
    g: crate::graph::GraphModel,
    lists: Seq<NodeId>,
    b: Seq<NodeId>,
    i: int,
    s: Step,
) -> bool {
    &&& 0 <= i < b.len()
    &&& s.from == Some(b[i])
    &&& s.to is None
    &&& crate::default_transition::standing(g, lists, b[i]) == Some((b, i))
    &&& crate::transition_laws::free(g, lists, b[i])
}

/// What enters a block behind index `i`, or at the head of the track for -1:
/// the seam there, the head of the next clip, or the tail of the one before.
proof fn lemma_step_origin(
    g: crate::graph::GraphModel,
    lists: Seq<NodeId>,
    clips: Seq<NodeId>,
    half: Rational,
    length: Rational,
    s: Step,
    i: int,
)
    requires
        crate::transition_laws::orderly(g),
        crate::transition_counts::is_of_wanted(
            g,
            crate::default_transition::wanted(g, lists, clips),
            half,
            length,
            s,
        ),
        g.track(s.track) is Some,
        ({
            let b = g.track(s.track).unwrap().blocks;
            &&& -1 <= i < b.len()
            &&& s.anchor == if i < 0 {
                None
            } else {
                Some(b[i])
            }
        }),
    ensures
        ({
            let b = g.track(s.track).unwrap().blocks;
            let w = crate::default_transition::wanted(g, lists, clips);
            ||| joins_behind(g, w, half, b, i, s)
            ||| opens(g, lists, b, i + 1, s)
            ||| closes(g, lists, b, i, s)
        }),
{
    let b = g.track(s.track).unwrap().blocks;
    let w = crate::default_transition::wanted(g, lists, clips);
    if crate::transition_counts::is_of_seams(g, half, w.seams, s) {
        let m = choose|m: int|
            0 <= m < w.seams.len() && crate::transition_counts::is_seam_step(
                g,
                half,
                #[trigger] w.seams[m],
                s,
            );
        reveal(crate::transition_counts::is_seam_step);
        let (prev, next) = w.seams[m];
        assert(w.seams.contains(w.seams[m]));
        crate::list::lemma_position(b, prev);
        assert(crate::transitions::adjacent(b, prev, next));
        assert(crate::list::position_of(b, prev) == Some(i));
    } else {
        let edges = w.edges();
        let m = choose|m: int|
            0 <= m < edges.len() && crate::transition_counts::is_edge_step(
                g,
                length,
                #[trigger] edges[m],
                s,
            );
        reveal(crate::transition_counts::is_edge_step);
        let (clip, start_edge) = edges[m];
        assert(edges.contains(edges[m]));
        crate::transition_laws::lemma_wanted_edges(g, lists, clips, edges[m]);
        crate::transition_laws::lemma_standing(g, lists, clip);
        let k = crate::list::position_of(b, clip).unwrap();
        if start_edge {
            if k > 0 {
                assert(b[k - 1] == b[i]);
            }
            assert(k == i + 1);
        } else {
            assert(k == i);
        }
    }
}

proof fn lemma_touching_kept(
    g: crate::graph::GraphModel,
    now: crate::graph::GraphModel,
    steps: Seq<Step>,
    prev: NodeId,
    next: NodeId,
)
    requires
        in_place(g, now, steps),
    ensures
        crate::default_transition::touching(now, prev, next)
            == crate::default_transition::touching(g, prev, next),
{
    lemma_old_nodes(g, now, steps, prev);
    lemma_old_nodes(g, now, steps, next);
}

/// Blocks that stand next to each other with the transitions in place stood
/// so before, if both were there.
proof fn lemma_were_next(
    b: Seq<NodeId>,
    f: Seq<NodeId>,
    track: NodeId,
    steps: Seq<Step>,
    n: int,
    k: int,
)
    requires
        b.no_duplicates(),
        crate::weaving::arranged(b, f, track, steps, n),
        forall|j: int| 0 <= j < steps.len() ==> (#[trigger] steps[j]).block == n + j,
        0 <= k < f.len() - 1,
        f[k] < n,
        f[k + 1] < n,
    ensures
        crate::weaving::follows(b, f[k], f[k + 1]),
        crate::transitions::adjacent(b, f[k], f[k + 1]),
        !crate::weaving::some_at(steps, track, Some(f[k])),
{
    assert(crate::weaving::behind(f, k) == f[k + 1]);
    crate::list::lemma_position(b, f[k]);
    let m = choose|m: int|
        0 <= m < b.len() - 1 && #[trigger] b[m] == f[k] && b[m + 1] == f[k + 1];
    if crate::weaving::some_at(steps, track, Some(f[k])) {
        let j = lemma_last_at(steps, track, Some(f[k]));
        assert(crate::weaving::right_behind(f, steps[j].anchor, steps[j].block));
        assert(f.contains(steps[j].block));
        crate::weaving::lemma_follows_unique(f, f[k], steps[j].block, k);
    }
}

/// Blocks that stood next to each other still do, if nothing entered there.
proof fn lemma_still_next(
    b: Seq<NodeId>,
    f: Seq<NodeId>,
    track: NodeId,
    steps: Seq<Step>,
    n: int,
    i: int,
) -> (k: int)
    requires
        b.no_duplicates(),
        forall|m: int| 0 <= m < b.len() ==> (#[trigger] b[m]) < n,
        crate::weaving::arranged(b, f, track, steps, n),
        0 <= i < b.len() - 1,
        !crate::weaving::some_at(steps, track, Some(b[i])),
    ensures
        0 <= k < f.len() - 1,
        f[k] == b[i],
        f[k + 1] == b[i + 1],
{
    assert(b.contains(b[i]));
    assert(b[i] < n);
    assert(f.contains(b[i]));
    let k = choose|k: int| 0 <= k < f.len() && f[k] == b[i];
    if k == f.len() - 1 {
        assert(f.last() == f[k]);
        assert(b[b.len() - 1] == b[i]);
    }
    assert(crate::weaving::behind(f, k) == f[k + 1]);
    crate::weaving::lemma_follows_unique(b, b[i], f[k + 1], i);
    k
}

/// A seam that takes a transition with the row in place took one before, and
/// nothing entered there.
proof fn lemma_seam_took(
    g: crate::graph::GraphModel,
    now: crate::graph::GraphModel,
    steps: Seq<Step>,
    prev: NodeId,
    next: NodeId,
    half: Rational,
)
    requires
        crate::transition_laws::orderly(g),
        in_place(g, now, steps),
        crate::transitions::seam_plan(now, prev, next, half) is Ok,
    ensures
        ({
            let plan = crate::transitions::seam_plan(g, prev, next, half).unwrap();
            &&& crate::transitions::seam_plan(g, prev, next, half) is Ok
            &&& g.clip(prev) is Some
            &&& g.clip(prev).unwrap().track == Some(plan.track)
            &&& g.clip(next) is Some
            &&& g.clip(next).unwrap().track == Some(plan.track)
            &&& plan.anchor == Some(prev)
            &&& !crate::weaving::some_at(steps, plan.track, plan.anchor)
        }),
{
    let n = g.slots.len() as int;
    lemma_old_nodes(g, now, steps, prev);
    lemma_old_nodes(g, now, steps, next);
    let track = g.clip(prev).unwrap().track.unwrap();
    lemma_old_nodes(g, now, steps, track);
    let b = g.track(track).unwrap().blocks;
    let f = now.track(track).unwrap().blocks;
    crate::list::lemma_position(f, prev);
    let k = crate::list::position_of(f, prev).unwrap();
    lemma_were_next(b, f, track, steps, n, k);
    if crate::transitions::joined_among(g, b, prev, next) {
        let l = choose|l: int|
            0 <= l < b.len() && crate::transitions::joins(g, #[trigger] b[l], prev, next);
        let x = b[l];
        lemma_old_nodes(g, now, steps, x);
        assert(b.contains(x));
        assert(f.contains(x));
        let y = choose|y: int| 0 <= y < f.len() && f[y] == x;
        assert(crate::transitions::joins(now, f[y], prev, next));
        assert(crate::transitions::joined_among(now, f, prev, next));
    }
}

/// A seam that a clip still asks for takes no transition.
proof fn lemma_seam_settled(
    g: crate::graph::GraphModel,
    lists: Seq<NodeId>,
    clips: Seq<NodeId>,
    half: Rational,
    length: Rational,
    now: crate::graph::GraphModel,
    clip: NodeId,
    seam: (NodeId, NodeId),
)
    requires
        crate::transition_laws::orderly(g),
        g.slots.len() + 4 * clips.len() < u64::MAX,
        in_place(
            g,
            now,
            crate::transition_laws::default_steps(g, lists, clips, half, length),
        ),
        crate::transition_laws::asks_seam(now, lists, clip, seam),
        clips.contains(clip),
    ensures
        crate::transitions::seam_plan(now, seam.0, seam.1, half) is Err,
{
    let steps = crate::transition_laws::default_steps(g, lists, clips, half, length);
    let n = g.slots.len() as int;
    let (p, q) = seam;
    if crate::transitions::seam_plan(now, p, q, half) is Ok {
        lemma_seam_took(g, now, steps, p, q, half);
        let plan = crate::transitions::seam_plan(g, p, q, half).unwrap();
        lemma_stood(g, now, steps, lists, clip);
        let (b, i) = crate::default_transition::standing(g, lists, clip).unwrap();
        assert(clip == p || clip == q);
        assert(g.track_of(clip) == Some(plan.track));
        assert(crate::transitions::adjacent(b, p, q));
        crate::list::lemma_position(b, p);
        let m = crate::list::position_of(b, p).unwrap();
        lemma_old_nodes(g, now, steps, p);
        lemma_old_nodes(g, now, steps, q);
        if clip == p {
            assert(m == i);
        } else {
            assert(b[m + 1] == b[i]);
            assert(m + 1 == i);
        }
        assert(crate::default_transition::touching(g, p, q));
        assert(crate::transition_laws::asks_seam(g, lists, clip, seam));
        let w = crate::default_transition::wanted(g, lists, clips);
        crate::transition_laws::lemma_wanted_seams(g, lists, clips, seam);
        let c = choose|c: int| 0 <= c < clips.len() && clips[c] == clip;
        assert(crate::transition_laws::asks_seam(g, lists, clips[c], seam));
        crate::transition_counts::lemma_wanted_exist(g, lists, clips);
        let j = crate::transition_counts::lemma_step_of_seam(g, w.seams, half, n, seam);
        reveal(crate::transition_counts::is_seam_step);
        assert(steps[j] == crate::transition_laws::seam_steps(g, w.seams, half, n)[j]);
        assert(crate::weaving::at_place(steps[j], plan.track, plan.anchor));
        assert(crate::weaving::some_at(steps, plan.track, plan.anchor));
    }
}

/// A transition that entered beside a clip on its track is found wired to it.
proof fn lemma_found_wired(
    g: crate::graph::GraphModel,
    now: crate::graph::GraphModel,
    steps: Seq<Step>,
    track: NodeId,
    j: int,
    clip: NodeId,
)
    requires
        in_place(g, now, steps),
        0 <= j < steps.len(),
        steps[j].track == track,
        g.track(track) is Some,
        steps[j].from == Some(clip) || steps[j].to == Some(clip),
    ensures
        crate::default_transition::wired_among(now, now.track(track).unwrap().blocks, clip),
{
    lemma_old_nodes(g, now, steps, track);
    let f = now.track(track).unwrap().blocks;
    let s = steps[j];
    assert(f.contains(s.block));
    let k = choose|k: int| 0 <= k < f.len() && f[k] == s.block;
    assert(crate::default_transition::wired_to(now, f[k], clip));
}

/// What was wired to a clip still is.
proof fn lemma_still_wired(
    g: crate::graph::GraphModel,
    now: crate::graph::GraphModel,
    steps: Seq<Step>,
    track: NodeId,
    clip: NodeId,
)
    requires
        crate::transition_laws::orderly(g),
        in_place(g, now, steps),
        g.track(track) is Some,
        crate::default_transition::wired_among(g, g.track(track).unwrap().blocks, clip),
    ensures
        crate::default_transition::wired_among(now, now.track(track).unwrap().blocks, clip),
{
    lemma_old_nodes(g, now, steps, track);
    let b = g.track(track).unwrap().blocks;
    let f = now.track(track).unwrap().blocks;
    let l = choose|l: int|
        0 <= l < b.len() && crate::default_transition::wired_to(g, #[trigger] b[l], clip);
    let x = b[l];
    lemma_old_nodes(g, now, steps, x);
    assert(b.contains(x));
    assert(f.contains(x));
    let k = choose|k: int| 0 <= k < f.len() && f[k] == x;
    assert(crate::default_transition::wired_to(now, f[k], clip));
}

/// Clips that touch are still next to each other, or a transition is wired to
/// both.
proof fn lemma_seam_stays(
    g: crate::graph::GraphModel,
    lists: Seq<NodeId>,
    clips: Seq<NodeId>,
    half: Rational,
    length: Rational,
    now: crate::graph::GraphModel,
    steps: Seq<Step>,
    track: NodeId,
    i: int,
)
    requires
        crate::transition_laws::orderly(g),
        in_place(g, now, steps),
        forall|j: int|
            0 <= j < steps.len() ==> crate::transition_counts::is_of_wanted(
                g,
                crate::default_transition::wanted(g, lists, clips),
                half,
                length,
                #[trigger] steps[j],
            ),
        g.track(track) is Some,
        ({
            let b = g.track(track).unwrap().blocks;
            0 <= i < b.len() - 1 && crate::default_transition::touching(g, b[i], b[i + 1])
        }),
    ensures
        ({
            let b = g.track(track).unwrap().blocks;
            let f = now.track(track).unwrap().blocks;
            ||| crate::weaving::follows(f, b[i], b[i + 1])
            ||| crate::default_transition::wired_among(now, f, b[i])
                && crate::default_transition::wired_among(now, f, b[i + 1])
        }),
{
    let n = g.slots.len() as int;
    lemma_old_nodes(g, now, steps, track);
    let b = g.track(track).unwrap().blocks;
    let f = now.track(track).unwrap().blocks;
    if crate::weaving::some_at(steps, track, Some(b[i])) {
        let j = lemma_last_at(steps, track, Some(b[i]));
        lemma_step_origin(g, lists, clips, half, length, steps[j], i);
        assert(!opens(g, lists, b, i + 1, steps[j]));
        assert(!closes(g, lists, b, i, steps[j]));
        lemma_found_wired(g, now, steps, track, j, b[i]);
        lemma_found_wired(g, now, steps, track, j, b[i + 1]);
    } else {
        let m = lemma_still_next(b, f, track, steps, n, i);
        assert(f[m] == b[i] && f[m + 1] == b[i + 1]);
    }
}

/// A clip that is free with the row in place was free before.
proof fn lemma_was_free(
    g: crate::graph::GraphModel,
    lists: Seq<NodeId>,
    clips: Seq<NodeId>,
    half: Rational,
    length: Rational,
    now: crate::graph::GraphModel,
    steps: Seq<Step>,
    clip: NodeId,
)
    requires
        crate::transition_laws::orderly(g),
        in_place(g, now, steps),
        forall|j: int|
            0 <= j < steps.len() ==> crate::transition_counts::is_of_wanted(
                g,
                crate::default_transition::wanted(g, lists, clips),
                half,
                length,
                #[trigger] steps[j],
            ),
        crate::transition_laws::free(now, lists, clip),
    ensures
        crate::transition_laws::free(g, lists, clip),
{
    let n = g.slots.len() as int;
    lemma_stood(g, now, steps, lists, clip);
    let (f, k) = crate::default_transition::standing(now, lists, clip).unwrap();
    let (b, i) = crate::default_transition::standing(g, lists, clip).unwrap();
    let track = g.track_of(clip).unwrap();
    if crate::default_transition::wired_among(g, b, clip) {
        lemma_still_wired(g, now, steps, track, clip);
    }
    if crate::default_transition::seam_before(g, b, i) {
        lemma_seam_stays(g, lists, clips, half, length, now, steps, track, i - 1);
        let m = choose|m: int|
            0 <= m < f.len() - 1 && #[trigger] f[m] == b[i - 1] && f[m + 1] == clip;
        assert(m + 1 == k);
        lemma_touching_kept(g, now, steps, b[i - 1], clip);
    }
    if crate::default_transition::seam_behind(g, b, i) {
        lemma_seam_stays(g, lists, clips, half, length, now, steps, track, i);
        let m = choose|m: int|
            0 <= m < f.len() - 1 && #[trigger] f[m] == clip && f[m + 1] == b[i + 1];
        assert(m == k);
        lemma_touching_kept(g, now, steps, clip, b[i + 1]);
    }
}

/// A clip that nothing is wired to has no transition on an edge.
proof fn lemma_free_edge(
    g: crate::graph::GraphModel,
    lists: Seq<NodeId>,
    clip: NodeId,
    start_edge: bool,
)
    requires
        crate::transition_laws::orderly(g),
        crate::transition_laws::free(g, lists, clip),
    ensures
        g.edge_transition(clip, start_edge) is None,
{
    crate::transition_laws::lemma_standing(g, lists, clip);
    let (b, i) = crate::default_transition::standing(g, lists, clip).unwrap();
    let at = if start_edge {
        i - 1
    } else {
        i + 1
    };
    if g.edge_transition(clip, start_edge) is Some {
        assert(crate::default_transition::wired_to(g, b[at], clip));
    }
}

/// A clip that is still free has edges that take no transition.
proof fn lemma_edge_settled(
    g: crate::graph::GraphModel,
    lists: Seq<NodeId>,
    clips: Seq<NodeId>,
    half: Rational,
    length: Rational,
    now: crate::graph::GraphModel,
    clip: NodeId,
    start_edge: bool,
)
    requires
        crate::transition_laws::orderly(g),
        g.slots.len() + 4 * clips.len() < u64::MAX,
        ({
            let steps = crate::transition_laws::default_steps(g, lists, clips, half, length);
            &&& in_place(g, now, steps)
            &&& forall|j: int|
                0 <= j < steps.len() ==> crate::transition_counts::is_of_wanted(
                    g,
                    crate::default_transition::wanted(g, lists, clips),
                    half,
                    length,
                    #[trigger] steps[j],
                )
        }),
        crate::transition_laws::free(now, lists, clip),
        clips.contains(clip),
    ensures
        crate::transitions::edge_plan(now, clip, start_edge, length) is Err,
{
    let steps = crate::transition_laws::default_steps(g, lists, clips, half, length);
    let n = g.slots.len() as int;
    lemma_was_free(g, lists, clips, half, length, now, steps, clip);
    lemma_free_edge(g, lists, clip, start_edge);
    lemma_stood(g, now, steps, lists, clip);
    lemma_old_nodes(g, now, steps, clip);
    if crate::transitions::edge_plan(now, clip, start_edge, length) is Ok {
        assert(crate::transitions::edge_plan(g, clip, start_edge, length) is Ok);
        let w = crate::default_transition::wanted(g, lists, clips);
        let edge = (clip, start_edge);
        crate::transition_laws::lemma_wanted_edges(g, lists, clips, edge);
        crate::transition_counts::lemma_wanted_exist(g, lists, clips);
        let first = crate::transition_laws::seam_steps(g, w.seams, half, n);
        crate::transition_counts::lemma_few_seam_steps(g, w.seams, half, n);
        let j = crate::transition_counts::lemma_step_of_edge(
            g,
            w.edges(),
            length,
            n + first.len(),
            edge,
        );
        reveal(crate::transition_counts::is_edge_step);
        let at = first.len() as int + j;
        assert(steps[at] == crate::transition_laws::edge_steps(
            g,
            w.edges(),
            length,
            n + first.len(),
        )[j]);
        lemma_found_wired(g, now, steps, g.track_of(clip).unwrap(), at, clip);
    }
}

proof fn lemma_no_seams(
    b: crate::default_transition::Batch,
    seams: Seq<(NodeId, NodeId)>,
    half: Rational,
)
    requires
        forall|i: int|
            0 <= i < seams.len() ==> crate::transitions::seam_plan(
                b.graph,
                (#[trigger] seams[i]).0,
                seams[i].1,
                half,
            ) is Err,
    ensures
        crate::default_transition::with_seams(b, seams, half) == b,
    decreases seams.len(),
{
    if seams.len() > 0 {
        let init = seams.drop_last();
        assert forall|i: int| 0 <= i < init.len() implies crate::transitions::seam_plan(
            b.graph,
            (#[trigger] init[i]).0,
            init[i].1,
            half,
        ) is Err by {
            assert(init[i] == seams[i]);
        }
        lemma_no_seams(b, init, half);
        assert(seams[seams.len() - 1] == seams.last());
    }
}

proof fn lemma_no_edges(
    b: crate::default_transition::Batch,
    edges: Seq<(NodeId, bool)>,
    length: Rational,
)
    requires
        forall|i: int|
            0 <= i < edges.len() ==> crate::transitions::edge_plan(
                b.graph,
                (#[trigger] edges[i]).0,
                edges[i].1,
                length,
            ) is Err,
    ensures
        crate::default_transition::with_edges(b, edges, length) == b,
    decreases edges.len(),
{
    if edges.len() > 0 {
        let init = edges.drop_last();
        assert forall|i: int| 0 <= i < init.len() implies crate::transitions::edge_plan(
            b.graph,
            (#[trigger] init[i]).0,
            init[i].1,
            length,
        ) is Err by {
            assert(init[i] == edges[i]);
        }
        lemma_no_edges(b, init, length);
        assert(edges[edges.len() - 1] == edges.last());
    }
}

/// Adding the default transitions to a selection a second time builds
/// nothing: the seams are taken, and every lone clip has its transitions. So
/// it is on every track, also where clips stand next to each other with a
/// hole between them.
pub proof fn lemma_default_transition_idempotent(
    g: crate::graph::GraphModel,
    lists: Seq<NodeId>,
    clips: Seq<NodeId>,
    half: Rational,
    length: Rational,
)
    requires
        crate::transition_laws::orderly(g),
        g.slots.len() + 4 * clips.len() < u64::MAX,
    ensures
        ({
            let b = crate::default_transition::default_batch(g, lists, clips, half, length);
            let now = b.graph.redone_all(b.commands);
            let again = crate::default_transition::default_batch(now, lists, clips, half, length);
            &&& again.created == 0
            &&& again.graph == now
            &&& again.commands == Seq::<Command>::empty()
            &&& forall|id: NodeId| #[trigger] now.sequence(id) == g.sequence(id)
        }),
{
    let b = crate::default_transition::default_batch(g, lists, clips, half, length);
    let now = b.graph.redone_all(b.commands);
    lemma_in_place(g, lists, clips, half, length);
    let w = crate::default_transition::wanted(now, lists, clips);
    let edges = w.edges();
    let none = crate::default_transition::Batch { graph: now, commands: Seq::empty(), created: 0 };
    assert forall|i: int| 0 <= i < w.seams.len() implies crate::transitions::seam_plan(
        now,
        (#[trigger] w.seams[i]).0,
        w.seams[i].1,
        half,
    ) is Err by {
        let seam = w.seams[i];
        assert(w.seams.contains(seam));
        crate::transition_laws::lemma_wanted_seams(now, lists, clips, seam);
        let j = choose|j: int|
            0 <= j < clips.len() && crate::transition_laws::asks_seam(
                now,
                lists,
                #[trigger] clips[j],
                seam,
            );
        assert(clips.contains(clips[j]));
        lemma_seam_settled(g, lists, clips, half, length, now, clips[j], seam);
    }
    lemma_no_seams(none, w.seams, half);
    assert forall|i: int| 0 <= i < edges.len() implies crate::transitions::edge_plan(
        now,
        (#[trigger] edges[i]).0,
        edges[i].1,
        length,
    ) is Err by {
        let edge = edges[i];
        assert(edges.contains(edge));
        crate::transition_laws::lemma_wanted_edges(now, lists, clips, edge);
        lemma_edge_settled(g, lists, clips, half, length, now, edge.0, edge.1);
    }
    lemma_no_edges(none, edges, length);
    let steps = crate::transition_laws::default_steps(g, lists, clips, half, length);
    assert forall|id: NodeId| #[trigger] now.sequence(id) == g.sequence(id) by {
        if id < g.slots.len() {
            if g.track(id) is None {
                assert(now.node(id) == g.node(id));
            } else {
                assert(now.track(id) is Some);
            }
        } else if id < now.slots.len() {
            assert(steps[id - g.slots.len()].block == id);
            assert(now.transition(id) is Some);
        }
    }
}

proof fn lemma_edge_steps_concat(
    g: crate::graph::GraphModel,
    a: Seq<(NodeId, bool)>,
    b: Seq<(NodeId, bool)>,
    length: Rational,
    base: int,
)
    ensures
        ({
            let first = crate::transition_laws::edge_steps(g, a, length, base);
            crate::transition_laws::edge_steps(g, a + b, length, base) == first
                + crate::transition_laws::edge_steps(g, b, length, base + first.len())
        }),
    decreases b.len(),
{
    let first = crate::transition_laws::edge_steps(g, a, length, base);
    if b.len() == 0 {
        assert(a + b =~= a);
        assert(first + Seq::<Step>::empty() =~= first);
    } else {
        assert((a + b).drop_last() =~= a + b.drop_last());
        assert((a + b).last() == b.last());
        lemma_edge_steps_concat(g, a, b.drop_last(), length, base);
        let rest = crate::transition_laws::edge_steps(
            g,
            b.drop_last(),
            length,
            base + first.len(),
        );
        match crate::transitions::edge_plan(g, b.last().0, b.last().1, length) {
            Err(_) => {},
            Ok(plan) => {
                let s = crate::transition_laws::edge_step(
                    plan,
                    (base + first.len() + rest.len()) as u64,
                    b.last().0,
                    b.last().1,
                );
                assert(first + rest.push(s) =~= (first + rest).push(s));
            },
        }
    }
}

/// The steps of edges that are all heads, or all tails.
proof fn lemma_steps_of_one_kind(
    g: crate::graph::GraphModel,
    lone: Seq<NodeId>,
    start_edge: bool,
    length: Rational,
    base: int,
)
    requires
        0 <= base,
        base + lone.len() < u64::MAX,
    ensures
        ({
            let edges = lone.map_values(|clip: NodeId| (clip, start_edge));
            let steps = crate::transition_laws::edge_steps(g, edges, length, base);
            &&& steps.len() <= lone.len()
            &&& forall|j: int|
                0 <= j < steps.len() ==> if start_edge {
                    (#[trigger] steps[j]).from is None && steps[j].to is Some
                } else {
                    steps[j].from is Some && steps[j].to is None
                }
        }),
{
    let edges = lone.map_values(|clip: NodeId| (clip, start_edge));
    let steps = crate::transition_laws::edge_steps(g, edges, length, base);
    crate::transition_counts::lemma_edge_steps(g, edges, length, base);
    assert forall|j: int| 0 <= j < steps.len() implies if start_edge {
        (#[trigger] steps[j]).from is None && steps[j].to is Some
    } else {
        steps[j].from is Some && steps[j].to is None
    } by {
        assert(crate::transition_counts::is_of_edges(g, length, edges, steps[j]));
        let i = choose|i: int|
            0 <= i < edges.len() && crate::transition_counts::is_edge_step(
                g,
                length,
                #[trigger] edges[i],
                steps[j],
            );
        crate::transition_counts::lemma_edge_step_sides(g, length, edges[i], steps[j]);
    }
}

/// Every head enters before every tail.
proof fn lemma_heads_first(
    g: crate::graph::GraphModel,
    lists: Seq<NodeId>,
    clips: Seq<NodeId>,
    half: Rational,
    length: Rational,
    x: int,
    y: int,
)
    requires
        crate::transition_laws::orderly(g),
        g.slots.len() + 4 * clips.len() < u64::MAX,
        ({
            let steps = crate::transition_laws::default_steps(g, lists, clips, half, length);
            &&& 0 <= x < steps.len()
            &&& 0 <= y < steps.len()
            &&& steps[x].from is None
            &&& steps[y].to is None
        }),
    ensures
        x < y,
{
    let n = g.slots.len() as int;
    let w = crate::default_transition::wanted(g, lists, clips);
    crate::transition_counts::lemma_wanted_exist(g, lists, clips);
    crate::transition_laws::lemma_wanted_lone(g, lists, clips, 0);
    let seams = crate::transition_laws::seam_steps(g, w.seams, half, n);
    crate::transition_counts::lemma_seam_steps(g, w.seams, half, n);
    let base = n + seams.len();
    let heads = w.lone.map_values(|clip: NodeId| (clip, true));
    let tails = w.lone.map_values(|clip: NodeId| (clip, false));
    lemma_edge_steps_concat(g, heads, tails, length, base);
    lemma_steps_of_one_kind(g, w.lone, true, length, base);
    let first = crate::transition_laws::edge_steps(g, heads, length, base);
    lemma_steps_of_one_kind(g, w.lone, false, length, base + first.len());
    let second = crate::transition_laws::edge_steps(g, tails, length, base + first.len());
    let steps = crate::transition_laws::default_steps(g, lists, clips, half, length);
    assert(steps == seams + (first + second));
    assert forall|j: int| 0 <= j < seams.len() implies (#[trigger] steps[j]).from is Some
        && steps[j].to is Some by {
        assert(steps[j] == seams[j]);
        assert(crate::transition_counts::is_of_seams(g, half, w.seams, seams[j]));
        let i = choose|i: int|
            0 <= i < w.seams.len() && crate::transition_counts::is_seam_step(
                g,
                half,
                #[trigger] w.seams[i],
                seams[j],
            );
        crate::transition_counts::lemma_seam_step_sides(g, half, w.seams[i], seams[j]);
    }
    if x >= seams.len() + first.len() {
        assert(steps[x] == second[x - seams.len() - first.len()]);
    }
    if y < seams.len() + first.len() && y >= seams.len() {
        assert(steps[y] == first[y - seams.len()]);
    }
}

/// The block found on an edge of a clip, given the one next to it.
proof fn lemma_found_on_edge(
    now: crate::graph::GraphModel,
    clip: NodeId,
    track: NodeId,
    start_edge: bool,
    block: NodeId,
)
    requires
        now.track_of(clip) == Some(track),
        now.track(track) is Some,
        now.track(track).unwrap().blocks.no_duplicates(),
        if start_edge {
            &&& crate::weaving::follows(now.track(track).unwrap().blocks, block, clip)
            &&& now.connected_output(block, IN_BLOCK@) == Some(clip)
        } else {
            &&& crate::weaving::follows(now.track(track).unwrap().blocks, clip, block)
            &&& now.connected_output(block, OUT_BLOCK@) == Some(clip)
        },
    ensures
        now.edge_transition(clip, start_edge) == Some(block),
{
    let f = now.track(track).unwrap().blocks;
    crate::list::lemma_position(f, clip);
    if start_edge {
        let k = choose|k: int| 0 <= k < f.len() - 1 && #[trigger] f[k] == block && f[k + 1] == clip;
        assert(crate::list::position_of(f, clip) == Some(k + 1));
    } else {
        let k = choose|k: int| 0 <= k < f.len() - 1 && #[trigger] f[k] == clip && f[k + 1] == block;
        assert(crate::list::position_of(f, clip) == Some(k));
    }
}

/// With a row of default transitions in place, a lone clip carries the
/// transition that was built for an edge of it on that edge.
proof fn lemma_edge_carried(
    g: crate::graph::GraphModel,
    lists: Seq<NodeId>,
    clips: Seq<NodeId>,
    half: Rational,
    length: Rational,
    now: crate::graph::GraphModel,
    edge: (NodeId, bool),
)
    requires
        crate::transition_laws::orderly(g),
        g.slots.len() + 4 * clips.len() < u64::MAX,
        ({
            let steps = crate::transition_laws::default_steps(g, lists, clips, half, length);
            &&& in_place(g, now, steps)
            &&& forall|j: int|
                0 <= j < steps.len() ==> crate::transition_counts::is_of_wanted(
                    g,
                    crate::default_transition::wanted(g, lists, clips),
                    half,
                    length,
                    #[trigger] steps[j],
                )
        }),
        crate::default_transition::wanted(g, lists, clips).edges().contains(edge),
        crate::transitions::edge_plan(g, edge.0, edge.1, length) is Ok,
    ensures
        now.edge_transition(edge.0, edge.1) matches Some(id) && id >= g.slots.len(),
{
    let steps = crate::transition_laws::default_steps(g, lists, clips, half, length);
    let n = g.slots.len() as int;
    let w = crate::default_transition::wanted(g, lists, clips);
    let (clip, start_edge) = edge;
    crate::transition_laws::lemma_wanted_edges(g, lists, clips, edge);
    crate::transition_laws::lemma_standing(g, lists, clip);
    let (b, i) = crate::default_transition::standing(g, lists, clip).unwrap();
    let track = g.track_of(clip).unwrap();
    lemma_old_nodes(g, now, steps, clip);
    lemma_old_nodes(g, now, steps, track);
    let f = now.track(track).unwrap().blocks;
    crate::transition_counts::lemma_wanted_exist(g, lists, clips);
    let first = crate::transition_laws::seam_steps(g, w.seams, half, n);
    crate::transition_counts::lemma_few_seam_steps(g, w.seams, half, n);
    let j = crate::transition_counts::lemma_step_of_edge(
        g,
        w.edges(),
        length,
        n + first.len(),
        edge,
    );
    reveal(crate::transition_counts::is_edge_step);
    let at = first.len() as int + j;
    assert(steps[at] == crate::transition_laws::edge_steps(
        g,
        w.edges(),
        length,
        n + first.len(),
    )[j]);
    let anchor = steps[at].anchor;
    assert(crate::weaving::at_place(steps[at], track, anchor));
    if start_edge {
        let e = lemma_first_at(steps, track, anchor);
        lemma_step_origin(g, lists, clips, half, length, steps[e], i - 1);
        if steps[e].to is None {
            lemma_heads_first(g, lists, clips, half, length, at, e);
            assert(!crate::weaving::at_place(steps[at], steps[e].track, steps[e].anchor));
        }
        assert(steps[e].to == Some(clip));
        assert(crate::weaving::right_behind(b, steps[e].anchor, clip)) by {
            if i > 0 {
                assert(b[i - 1] == b[i - 1] && b[i - 1 + 1] == clip);
                assert(crate::weaving::follows(b, b[i - 1], clip));
            }
        }
        lemma_found_on_edge(now, clip, track, true, steps[e].block);
    } else {
        let e = lemma_last_at(steps, track, anchor);
        lemma_step_origin(g, lists, clips, half, length, steps[e], i);
        if steps[e].from is None {
            lemma_heads_first(g, lists, clips, half, length, e, at);
            assert(!crate::weaving::at_place(steps[at], steps[e].track, steps[e].anchor));
        }
        assert(steps[e].from == Some(clip));
        assert(crate::weaving::right_behind(f, steps[e].anchor, steps[e].block));
        lemma_found_on_edge(now, clip, track, false, steps[e].block);
    }
}

/// With a row of default transitions in place, both clips of a seam that got
/// one carry it on the edges that face each other.
proof fn lemma_seam_carried(
    g: crate::graph::GraphModel,
    lists: Seq<NodeId>,
    clips: Seq<NodeId>,
    half: Rational,
    length: Rational,
    now: crate::graph::GraphModel,
    seam: (NodeId, NodeId),
)
    requires
        crate::transition_laws::orderly(g),
        g.slots.len() + 4 * clips.len() < u64::MAX,
        ({
            let steps = crate::transition_laws::default_steps(g, lists, clips, half, length);
            &&& in_place(g, now, steps)
            &&& forall|j: int|
                0 <= j < steps.len() ==> crate::transition_counts::is_of_wanted(
                    g,
                    crate::default_transition::wanted(g, lists, clips),
                    half,
                    length,
                    #[trigger] steps[j],
                )
        }),
        crate::default_transition::wanted(g, lists, clips).seams.contains(seam),
        crate::transitions::seam_plan(g, seam.0, seam.1, half) is Ok,
    ensures
        now.edge_transition(seam.0, false) matches Some(id) && id >= g.slots.len(),
        now.edge_transition(seam.1, true) matches Some(id) && id >= g.slots.len(),
        now.edge_transition(seam.0, false) == now.edge_transition(seam.1, true),
{
    let steps = crate::transition_laws::default_steps(g, lists, clips, half, length);
    let n = g.slots.len() as int;
    let w = crate::default_transition::wanted(g, lists, clips);
    let (prev, next) = seam;
    let plan = crate::transitions::seam_plan(g, prev, next, half).unwrap();
    let track = plan.track;
    let b = g.track(track).unwrap().blocks;
    crate::list::lemma_position(b, prev);
    let i = crate::list::position_of(b, prev).unwrap();
    assert(b[i] == prev && b[i + 1] == next);
    lemma_old_nodes(g, now, steps, prev);
    lemma_old_nodes(g, now, steps, next);
    lemma_old_nodes(g, now, steps, track);
    let f = now.track(track).unwrap().blocks;
    crate::transition_counts::lemma_wanted_exist(g, lists, clips);
    let j = crate::transition_counts::lemma_step_of_seam(g, w.seams, half, n, seam);
    let first = crate::transition_laws::seam_steps(g, w.seams, half, n);
    assert(steps[j] == first[j]);
    assert(steps[j].track == track && steps[j].anchor == Some(prev) && steps[j].from == Some(prev)
        && steps[j].to == Some(next)) by {
        reveal(crate::transition_counts::is_seam_step);
    }
    assert(crate::default_transition::touching(g, prev, next));
    assert forall|m: int| 0 <= m < steps.len() && m != j implies !crate::weaving::at_place(
        #[trigger] steps[m],
        track,
        Some(prev),
    ) by {
        if crate::weaving::at_place(steps[m], track, Some(prev)) {
            lemma_step_origin(g, lists, clips, half, length, steps[m], i);
            assert(!opens(g, lists, b, i + 1, steps[m]));
            assert(!closes(g, lists, b, i, steps[m]));
            crate::transition_counts::lemma_seam_steps(g, w.seams, half, n);
            assert(crate::transition_counts::step_sides(steps[m])
                == crate::transition_counts::step_sides(steps[j]));
            if m < j {
                crate::transition_counts::lemma_steps_differ(
                    g,
                    lists,
                    clips,
                    half,
                    length,
                    m,
                    j,
                );
            } else {
                crate::transition_counts::lemma_steps_differ(
                    g,
                    lists,
                    clips,
                    half,
                    length,
                    j,
                    m,
                );
            }
        }
    }
    assert(crate::weaving::latest(steps, j));
    assert(crate::weaving::earliest(steps, j));
    assert(crate::weaving::follows(b, prev, next));
    assert(crate::weaving::right_behind(b, steps[j].anchor, next));
    assert(crate::weaving::right_behind(f, steps[j].anchor, steps[j].block));
    lemma_found_on_edge(now, prev, track, false, steps[j].block);
    lemma_found_on_edge(now, next, track, true, steps[j].block);
}

/// A row of default transitions leaves every one of them on the edge it was
/// asked for: a lone clip carries the ones built for its edges, and the clips
/// of a seam both carry the one built between them.
pub proof fn lemma_default_transition_carried(
    g: crate::graph::GraphModel,
    lists: Seq<NodeId>,
    clips: Seq<NodeId>,
    half: Rational,
    length: Rational,
)
    requires
        crate::transition_laws::orderly(g),
        g.slots.len() + 4 * clips.len() < u64::MAX,
    ensures
        ({
            let b = crate::default_transition::default_batch(g, lists, clips, half, length);
            let now = b.graph.redone_all(b.commands);
            let w = crate::default_transition::wanted(g, lists, clips);
            &&& forall|edge: (NodeId, bool)|
                #![trigger w.edges().contains(edge)]
                w.edges().contains(edge) && crate::transitions::edge_plan(
                    g,
                    edge.0,
                    edge.1,
                    length,
                ) is Ok ==> (now.edge_transition(edge.0, edge.1) matches Some(id) && id
                    >= g.slots.len())
            &&& forall|seam: (NodeId, NodeId)|
                #![trigger w.seams.contains(seam)]
                w.seams.contains(seam) && crate::transitions::seam_plan(g, seam.0, seam.1, half) is Ok
                    ==> {
                    &&& now.edge_transition(seam.0, false) matches Some(id) && id >= g.slots.len()
                    &&& now.edge_transition(seam.0, false) == now.edge_transition(seam.1, true)
                }
        }),
{
    let b = crate::default_transition::default_batch(g, lists, clips, half, length);
    let now = b.graph.redone_all(b.commands);
    let w = crate::default_transition::wanted(g, lists, clips);
    lemma_in_place(g, lists, clips, half, length);
    assert forall|edge: (NodeId, bool)|
        #![trigger w.edges().contains(edge)]
        w.edges().contains(edge) && crate::transitions::edge_plan(
            g,
            edge.0,
            edge.1,
            length,
        ) is Ok implies (now.edge_transition(edge.0, edge.1) matches Some(id) && id
        >= g.slots.len()) by {
        lemma_edge_carried(g, lists, clips, half, length, now, edge);
    }
    assert forall|seam: (NodeId, NodeId)|
        #![trigger w.seams.contains(seam)]
        w.seams.contains(seam) && crate::transitions::seam_plan(
            g,
            seam.0,
            seam.1,
            half,
        ) is Ok implies {
        &&& now.edge_transition(seam.0, false) matches Some(id) && id >= g.slots.len()
        &&& now.edge_transition(seam.0, false) == now.edge_transition(seam.1, true)
    } by {
        lemma_seam_carried(g, lists, clips, half, length, now, seam);
    }
}

} // verus!
