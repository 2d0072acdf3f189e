//! How many transitions a row of default transitions adds, and where: one for
//! every seam and free edge that takes one, and nothing else moves.

use crate::graph::{NodeId, IN_BLOCK, OUT_BLOCK};
use crate::rational::Rational;
use crate::transition_laws::Step;
use vstd::prelude::*;

verus! {

/// The entries of `f` below `n`, in order.
pub open spec fn old_blocks(f: Seq<NodeId>, n: int) -> Seq<NodeId>
    decreases f.len(),
{
    if f.len() == 0 {
        Seq::empty()
    } else if f.last() < n {
        old_blocks(f.drop_last(), n).push(f.last())
    } else {
        old_blocks(f.drop_last(), n)
    }
}

proof fn lemma_all_old(f: Seq<NodeId>, n: int)
    requires
        forall|i: int| 0 <= i < f.len() ==> (#[trigger] f[i]) < n,
    ensures
        old_blocks(f, n) == f,
    decreases f.len(),
{
    if f.len() > 0 {
        let init = f.drop_last();
        assert forall|i: int| 0 <= i < init.len() implies (#[trigger] init[i]) < n by {
            assert(init[i] == f[i]);
        }
        lemma_all_old(init, n);
        assert(f[f.len() - 1] < n);
        assert(init.push(f.last()) =~= f);
    } else {
        assert(old_blocks(f, n) =~= f);
    }
}

proof fn lemma_old_of_insert(f: Seq<NodeId>, p: int, x: NodeId, n: int)
    requires
        0 <= p <= f.len(),
        x >= n,
    ensures
        old_blocks(f.insert(p, x), n) == old_blocks(f, n),
    decreases f.len(),
{
    let more = f.insert(p, x);
    if p == f.len() {
        assert(more.drop_last() =~= f);
    } else {
        lemma_old_of_insert(f.drop_last(), p, x, n);
        assert(more.drop_last() =~= f.drop_last().insert(p, x));
        assert(more.last() == f.last());
    }
}

proof fn lemma_old_occurs(f: Seq<NodeId>, n: int, x: NodeId)
    requires
        old_blocks(f, n).contains(x),
    ensures
        f.contains(x),
    decreases f.len(),
{
    let kept = old_blocks(f, n);
    let k = choose|k: int| 0 <= k < kept.len() && kept[k] == x;
    if f.len() > 0 {
        let init = f.drop_last();
        let before = old_blocks(init, n);
        if k < before.len() {
            assert(before[k] == x);
            lemma_old_occurs(init, n, x);
            let i = choose|i: int| 0 <= i < init.len() && init[i] == x;
            assert(f[i] == x);
        } else {
            assert(f[f.len() - 1] == x);
        }
    }
}

/// Whether the steps enter new nodes in order, each behind a block of a track
/// of `g`, or at its head.
pub open spec fn placed_steps(g: crate::graph::GraphModel, steps: Seq<Step>) -> bool {
    forall|j: int|
        0 <= j < steps.len() ==> {
            let s = #[trigger] steps[j];
            &&& s.block == g.slots.len() + j
            &&& g.track(s.track) is Some
            &&& s.anchor matches Some(a) ==> g.track(s.track).unwrap().blocks.contains(a)
        }
}

/// Whether a block stands on the track at `track`.
pub open spec fn stands_on(h: crate::graph::GraphModel, track: NodeId, block: NodeId) -> bool {
    h.track(track) matches Some(t) && t.blocks.contains(block)
}

/// What is known of `h` after the steps were taken from `start`, which is `g`
/// with new nodes.
pub open spec fn counted(
    g: crate::graph::GraphModel,
    start: crate::graph::GraphModel,
    h: crate::graph::GraphModel,
    steps: Seq<Step>,
) -> bool {
    let n = g.slots.len() as int;
    &&& h.slots.len() == start.slots.len()
    &&& forall|id: NodeId|
        id < n && g.track(id) is None ==> #[trigger] h.node(id) == g.node(id)
    &&& forall|id: NodeId|
        #![trigger h.track(id)]
        id < n && g.track(id) is Some ==> {
            let f = h.track(id).unwrap().blocks;
            &&& h.track(id) is Some
            &&& h.node(id) == Some(crate::transition_laws::relisted(g.node(id).unwrap(), f))
            &&& old_blocks(f, n) == g.track(id).unwrap().blocks
            &&& f.no_duplicates()
            &&& forall|k: int| 0 <= k < f.len() ==> (#[trigger] f[k]) < n + steps.len()
            &&& f == crate::weaving::woven(g.track(id).unwrap().blocks, id, steps)
        }
    &&& forall|id: NodeId|
        n + steps.len() <= id < h.slots.len() ==> #[trigger] h.node(id) == start.node(id)
    &&& forall|j: int|
        0 <= j < steps.len() ==> {
            let s = #[trigger] steps[j];
            &&& h.node(s.block) == Some(
                crate::transition_laws::entered_node(start.node(s.block).unwrap(), s),
            )
            &&& forall|id: NodeId|
                id < n ==> (#[trigger] stands_on(h, id, s.block) <==> id == s.track)
        }
}

proof fn lemma_none_counted(g: crate::graph::GraphModel, start: crate::graph::GraphModel)
    requires
        crate::transition_laws::orderly(g),
        crate::transition_laws::grown(g, start),
    ensures
        counted(g, start, start, Seq::empty()),
{
    let n = g.slots.len() as int;
    assert forall|id: NodeId|
        #![trigger start.track(id)]
        id < n && g.track(id) is Some implies {
        let f = start.track(id).unwrap().blocks;
        &&& start.track(id) is Some
        &&& start.node(id) == Some(crate::transition_laws::relisted(g.node(id).unwrap(), f))
        &&& old_blocks(f, n) == g.track(id).unwrap().blocks
        &&& f.no_duplicates()
        &&& forall|k: int| 0 <= k < f.len() ==> (#[trigger] f[k]) < n
        &&& f == crate::weaving::woven(g.track(id).unwrap().blocks, id, Seq::empty())
    } by {
        assert(start.node(id) == g.node(id));
        let b = g.track(id).unwrap().blocks;
        assert(crate::transition_laws::relisted(g.node(id).unwrap(), b) =~= g.node(id).unwrap());
        lemma_all_old(b, n);
    }
}

proof fn lemma_one_counted(
    g: crate::graph::GraphModel,
    start: crate::graph::GraphModel,
    h: crate::graph::GraphModel,
    steps: Seq<Step>,
    s: Step,
)
    requires
        crate::transition_laws::orderly(g),
        crate::transition_laws::grown(g, start),
        counted(g, start, h, steps),
        placed_steps(g, steps.push(s)),
        g.slots.len() + steps.len() < start.slots.len(),
    ensures
        crate::transition_laws::ready(h, s),
        counted(g, start, crate::transition_laws::after_step(h, s), steps.push(s)),
{
    let n = g.slots.len() as int;
    let limit = n + steps.len();
    let all = steps.push(s);
    assert(all[steps.len() as int] == s);
    assert(s.block == limit);
    assert(s.track < n);
    assert(h.track(s.track) is Some);
    let f = h.track(s.track).unwrap().blocks;
    assert(h.node(s.block) == start.node(s.block));
    assert(!f.contains(s.block)) by {
        if f.contains(s.block) {
            let k = choose|k: int| 0 <= k < f.len() && f[k] == s.block;
            assert(f[k] < limit);
        }
    }
    assert(crate::transition_laws::ready(h, s));
    let now = crate::transition_laws::after_step(h, s);
    let f2 = crate::commands::inserted_after(f, s.block, s.anchor);
    let p = match s.anchor {
        Some(a) => crate::list::position_of(f, a).unwrap() + 1,
        None => 0,
    };
    if let Some(a) = s.anchor {
        lemma_old_occurs(f, n, a);
        crate::list::lemma_position(f, a);
    }
    assert(0 <= p <= f.len() && f2 == f.insert(p, s.block));
    lemma_old_of_insert(f, p, s.block, n);
    assert(now.node(s.track) == Some(
        crate::transition_laws::relisted(h.node(s.track).unwrap(), f2),
    ));
    assert(now.track(s.track).unwrap().blocks == f2);
    assert forall|k: int| 0 <= k < f2.len() implies (#[trigger] f2[k]) < limit + 1 by {
        if k < p {
            assert(f2[k] == f[k]);
        } else if k > p {
            assert(f2[k] == f[k - 1]);
        }
    }
    assert(f2.no_duplicates()) by {
        assert forall|k: int, m: int| 0 <= k < f2.len() && 0 <= m < f2.len() && k
            != m implies f2[k] != f2[m] by {
            let x = if k < p {
                k
            } else {
                k - 1
            };
            let y = if m < p {
                m
            } else {
                m - 1
            };
            if k != p {
                assert(f2[k] == f[x]);
            }
            if m != p {
                assert(f2[m] == f[y]);
            }
        }
    }
    assert forall|id: NodeId| id < n && g.track(id) is None implies #[trigger] now.node(id)
        == g.node(id) by {
        assert(h.node(id) == g.node(id));
    }
    assert forall|id: NodeId|
        #![trigger now.track(id)]
        id < n && g.track(id) is Some implies {
        let f3 = now.track(id).unwrap().blocks;
        &&& now.track(id) is Some
        &&& now.node(id) == Some(crate::transition_laws::relisted(g.node(id).unwrap(), f3))
        &&& old_blocks(f3, n) == g.track(id).unwrap().blocks
        &&& f3.no_duplicates()
        &&& forall|k: int| 0 <= k < f3.len() ==> (#[trigger] f3[k]) < n + all.len()
        &&& f3 == crate::weaving::woven(g.track(id).unwrap().blocks, id, all)
    } by {
        assert(h.track(id) is Some);
        assert(all.drop_last() =~= steps);
        if id == s.track {
            assert(crate::transition_laws::relisted(
                crate::transition_laws::relisted(g.node(id).unwrap(), f),
                f2,
            ) =~= crate::transition_laws::relisted(g.node(id).unwrap(), f2));
        } else {
            assert(now.node(id) == h.node(id));
        }
    }
    assert forall|id: NodeId| n + all.len() <= id < now.slots.len() implies #[trigger] now.node(id)
        == start.node(id) by {
        assert(h.node(id) == start.node(id));
    }
    assert forall|j: int| 0 <= j < all.len() implies {
        let q = #[trigger] all[j];
        &&& now.node(q.block) == Some(
            crate::transition_laws::entered_node(start.node(q.block).unwrap(), q),
        )
        &&& forall|id: NodeId|
            id < n ==> (#[trigger] stands_on(now, id, q.block) <==> id == q.track)
    } by {
        let q = all[j];
        assert(q.block == n + j);
        if j < steps.len() {
            assert(q == steps[j]);
            assert(now.node(q.block) == h.node(q.block));
        }
        assert forall|id: NodeId| id < n implies (#[trigger] stands_on(now, id, q.block) <==> id
            == q.track) by {
            if j < steps.len() {
                assert(stands_on(h, id, q.block) <==> id == q.track);
            } else if g.track(id) is Some {
                assert(h.track(id) is Some);
                let b = h.track(id).unwrap().blocks;
                if b.contains(q.block) {
                    let k = choose|k: int| 0 <= k < b.len() && b[k] == q.block;
                    assert(b[k] < limit);
                }
            } else {
                assert(h.node(id) == g.node(id));
            }
            if id == s.track {
                crate::weaving::lemma_insert_contains(f, p, s.block, q.block);
            } else {
                assert(now.node(id) == h.node(id));
            }
        }
    }
}

pub(crate) proof fn lemma_counted(
    g: crate::graph::GraphModel,
    start: crate::graph::GraphModel,
    steps: Seq<Step>,
)
    requires
        crate::transition_laws::orderly(g),
        crate::transition_laws::grown(g, start),
        placed_steps(g, steps),
        g.slots.len() + steps.len() <= start.slots.len(),
    ensures
        counted(g, start, start.redone_all(crate::transition_laws::all_commands(steps)), steps),
        crate::reversal::reversible_all(start, crate::transition_laws::all_commands(steps)),
    decreases steps.len(),
{
    if steps.len() == 0 {
        lemma_none_counted(g, start);
        assert(steps =~= Seq::empty());
    } else {
        let init = steps.drop_last();
        let s = steps.last();
        assert(init.push(s) =~= steps);
        assert forall|j: int| 0 <= j < init.len() implies {
            let q = #[trigger] init[j];
            &&& q.block == g.slots.len() + j
            &&& g.track(q.track) is Some
            &&& q.anchor matches Some(a) ==> g.track(q.track).unwrap().blocks.contains(a)
        } by {
            assert(init[j] == steps[j]);
        }
        lemma_counted(g, start, init);
        let h = start.redone_all(crate::transition_laws::all_commands(init));
        lemma_one_counted(g, start, h, init, s);
        crate::transition_laws::lemma_step(h, s);
        crate::transition_laws::lemma_redone_concat(
            start,
            crate::transition_laws::all_commands(init),
            crate::transition_laws::step_commands(s),
        );
    }
}

/// Whether a step adds the transition of a seam.
#[verifier::opaque]
pub open spec fn is_seam_step(
    g: crate::graph::GraphModel,
    half: Rational,
    seam: (NodeId, NodeId),
    s: Step,
) -> bool {
    crate::transitions::seam_plan(g, seam.0, seam.1, half) matches Ok(plan) && s
        == crate::transition_laws::seam_step(plan, s.block, seam.0, seam.1)
}

/// Whether a step adds the transition of one of `seams`.
pub open spec fn is_of_seams(
    g: crate::graph::GraphModel,
    half: Rational,
    seams: Seq<(NodeId, NodeId)>,
    s: Step,
) -> bool {
    exists|i: int| 0 <= i < seams.len() && is_seam_step(g, half, #[trigger] seams[i], s)
}

/// Whether a step adds the transition of an edge.
#[verifier::opaque]
pub open spec fn is_edge_step(
    g: crate::graph::GraphModel,
    length: Rational,
    edge: (NodeId, bool),
    s: Step,
) -> bool {
    crate::transitions::edge_plan(g, edge.0, edge.1, length) matches Ok(plan) && s
        == crate::transition_laws::edge_step(plan, s.block, edge.0, edge.1)
}

/// Whether a step adds the transition of one of `edges`.
pub open spec fn is_of_edges(
    g: crate::graph::GraphModel,
    length: Rational,
    edges: Seq<(NodeId, bool)>,
    s: Step,
) -> bool {
    exists|i: int| 0 <= i < edges.len() && is_edge_step(g, length, #[trigger] edges[i], s)
}

/// What feeds the transition of a step.
pub open spec fn step_sides(s: Step) -> (Option<NodeId>, Option<NodeId>) {
    (s.from, s.to)
}

/// The sides of the transition at a seam.
pub open spec fn seam_sides(seam: (NodeId, NodeId)) -> (Option<NodeId>, Option<NodeId>) {
    (Some(seam.0), Some(seam.1))
}

/// The sides of the transition on an edge.
pub open spec fn edge_sides(edge: (NodeId, bool)) -> (Option<NodeId>, Option<NodeId>) {
    if edge.1 {
        (None, Some(edge.0))
    } else {
        (Some(edge.0), None)
    }
}

pub(crate) proof fn lemma_seam_step_sides(
    g: crate::graph::GraphModel,
    half: Rational,
    seam: (NodeId, NodeId),
    s: Step,
)
    requires
        is_seam_step(g, half, seam, s),
    ensures
        step_sides(s) == seam_sides(seam),
        crate::transitions::seam_plan(g, seam.0, seam.1, half) is Ok,
{
    reveal(is_seam_step);
}

pub(crate) proof fn lemma_edge_step_sides(
    g: crate::graph::GraphModel,
    length: Rational,
    edge: (NodeId, bool),
    s: Step,
)
    requires
        is_edge_step(g, length, edge, s),
    ensures
        step_sides(s) == edge_sides(edge),
        crate::transitions::edge_plan(g, edge.0, edge.1, length) is Ok,
{
    reveal(is_edge_step);
}

/// What one more seam adds to the steps.
proof fn lemma_seam_steps_last(
    g: crate::graph::GraphModel,
    seams: Seq<(NodeId, NodeId)>,
    half: Rational,
    base: int,
)
    requires
        seams.len() > 0,
        0 <= base,
        base + crate::transition_laws::seam_steps(g, seams.drop_last(), half, base).len()
            < u64::MAX,
    ensures
        ({
            let head = crate::transition_laws::seam_steps(g, seams.drop_last(), half, base);
            let steps = crate::transition_laws::seam_steps(g, seams, half, base);
            let plan = crate::transitions::seam_plan(g, seams.last().0, seams.last().1, half);
            &&& plan is Err ==> steps == head
            &&& plan is Ok ==> {
                let s = steps[head.len() as int];
                &&& steps == head.push(s)
                &&& s.block == base + head.len()
                &&& is_seam_step(g, half, seams.last(), s)
            }
        }),
{
    reveal(is_seam_step);
}

/// What one more edge adds to the steps.
proof fn lemma_edge_steps_last(
    g: crate::graph::GraphModel,
    edges: Seq<(NodeId, bool)>,
    length: Rational,
    base: int,
)
    requires
        edges.len() > 0,
        0 <= base,
        base + crate::transition_laws::edge_steps(g, edges.drop_last(), length, base).len()
            < u64::MAX,
    ensures
        ({
            let head = crate::transition_laws::edge_steps(g, edges.drop_last(), length, base);
            let steps = crate::transition_laws::edge_steps(g, edges, length, base);
            let plan = crate::transitions::edge_plan(g, edges.last().0, edges.last().1, length);
            &&& plan is Err ==> steps == head
            &&& plan is Ok ==> {
                let s = steps[head.len() as int];
                &&& steps == head.push(s)
                &&& s.block == base + head.len()
                &&& is_edge_step(g, length, edges.last(), s)
            }
        }),
{
    reveal(is_edge_step);
}

/// The steps of the seams: each for one of them, and no two the same.
pub(crate) proof fn lemma_seam_steps(
    g: crate::graph::GraphModel,
    seams: Seq<(NodeId, NodeId)>,
    half: Rational,
    base: int,
)
    requires
        0 <= base,
        base + seams.len() < u64::MAX,
        seams.no_duplicates(),
    ensures
        ({
            let steps = crate::transition_laws::seam_steps(g, seams, half, base);
            &&& steps.len() <= seams.len()
            &&& forall|j: int|
                0 <= j < steps.len() ==> (#[trigger] steps[j]).block == base + j && is_of_seams(
                    g,
                    half,
                    seams,
                    steps[j],
                )
            &&& forall|j: int, k: int|
                0 <= j < k < steps.len() ==> step_sides(#[trigger] steps[j]) != step_sides(
                    #[trigger] steps[k],
                )
        }),
    decreases seams.len(),
{
    let steps = crate::transition_laws::seam_steps(g, seams, half, base);
    if seams.len() > 0 {
        let init = seams.drop_last();
        let last = seams.len() - 1;
        assert(forall|i: int| 0 <= i < init.len() ==> init[i] == seams[i]);
        lemma_seam_steps(g, init, half, base);
        lemma_seam_steps_last(g, seams, half, base);
        let head = crate::transition_laws::seam_steps(g, init, half, base);
        assert forall|j: int| 0 <= j < steps.len() implies (#[trigger] steps[j]).block == base + j
            && is_of_seams(g, half, seams, steps[j]) by {
            if j < head.len() {
                assert(steps[j] == head[j]);
                let i = choose|i: int|
                    0 <= i < init.len() && is_seam_step(g, half, #[trigger] init[i], head[j]);
                assert(is_seam_step(g, half, seams[i], steps[j]));
            } else {
                assert(is_seam_step(g, half, seams[last], steps[j]));
            }
        }
        assert forall|j: int, k: int| 0 <= j < k < steps.len() implies step_sides(
            #[trigger] steps[j],
        ) != step_sides(#[trigger] steps[k]) by {
            assert(steps[j] == head[j]);
            if k < head.len() {
                assert(steps[k] == head[k]);
            } else {
                assert(is_of_seams(g, half, init, head[j]));
                let i = choose|i: int|
                    0 <= i < init.len() && is_seam_step(g, half, #[trigger] init[i], head[j]);
                assert(seams[i] != seams[last]);
                lemma_seam_step_sides(g, half, init[i], head[j]);
                lemma_seam_step_sides(g, half, seams[last], steps[k]);
            }
        }
    } else {
        assert(steps.len() == 0);
    }
}

/// The steps of the edges: each for one of them, and no two the same when no
/// edge is listed twice.
pub(crate) proof fn lemma_edge_steps(
    g: crate::graph::GraphModel,
    edges: Seq<(NodeId, bool)>,
    length: Rational,
    base: int,
)
    requires
        0 <= base,
        base + edges.len() < u64::MAX,
    ensures
        ({
            let steps = crate::transition_laws::edge_steps(g, edges, length, base);
            &&& steps.len() <= edges.len()
            &&& forall|j: int|
                0 <= j < steps.len() ==> (#[trigger] steps[j]).block == base + j && is_of_edges(
                    g,
                    length,
                    edges,
                    steps[j],
                )
            &&& edges.no_duplicates() ==> forall|j: int, k: int|
                0 <= j < k < steps.len() ==> step_sides(#[trigger] steps[j]) != step_sides(
                    #[trigger] steps[k],
                )
        }),
    decreases edges.len(),
{
    let steps = crate::transition_laws::edge_steps(g, edges, length, base);
    if edges.len() > 0 {
        let init = edges.drop_last();
        let last = edges.len() - 1;
        assert(forall|i: int| 0 <= i < init.len() ==> init[i] == edges[i]);
        lemma_edge_steps(g, init, length, base);
        lemma_edge_steps_last(g, edges, length, base);
        let head = crate::transition_laws::edge_steps(g, init, length, base);
        assert forall|j: int| 0 <= j < steps.len() implies (#[trigger] steps[j]).block == base + j
            && is_of_edges(g, length, edges, steps[j]) by {
            if j < head.len() {
                assert(steps[j] == head[j]);
                let i = choose|i: int|
                    0 <= i < init.len() && is_edge_step(g, length, #[trigger] init[i], head[j]);
                assert(is_edge_step(g, length, edges[i], steps[j]));
            } else {
                assert(is_edge_step(g, length, edges[last], steps[j]));
            }
        }
        if edges.no_duplicates() {
            assert forall|j: int, k: int| 0 <= j < k < steps.len() implies step_sides(
                #[trigger] steps[j],
            ) != step_sides(#[trigger] steps[k]) by {
                assert(steps[j] == head[j]);
                if k < head.len() {
                    assert(steps[k] == head[k]);
                } else {
                    assert(is_of_edges(g, length, init, head[j]));
                    let i = choose|i: int|
                        0 <= i < init.len() && is_edge_step(
                            g,
                            length,
                            #[trigger] init[i],
                            head[j],
                        );
                    assert(edges[i] != edges[last]);
                    lemma_edge_step_sides(g, length, init[i], head[j]);
                    lemma_edge_step_sides(g, length, edges[last], steps[k]);
                }
            }
        }
    } else {
        assert(steps.len() == 0);
    }
}

/// A seam that takes a transition has a step.
pub(crate) proof fn lemma_step_of_seam(
    g: crate::graph::GraphModel,
    seams: Seq<(NodeId, NodeId)>,
    half: Rational,
    base: int,
    seam: (NodeId, NodeId),
) -> (j: int)
    requires
        0 <= base,
        base + seams.len() < u64::MAX,
        seams.contains(seam),
        crate::transitions::seam_plan(g, seam.0, seam.1, half) is Ok,
    ensures
        0 <= j < crate::transition_laws::seam_steps(g, seams, half, base).len() <= seams.len(),
        is_seam_step(g, half, seam, crate::transition_laws::seam_steps(g, seams, half, base)[j]),
    decreases seams.len(),
{
    let init = seams.drop_last();
    let head = crate::transition_laws::seam_steps(g, init, half, base);
    let steps = crate::transition_laws::seam_steps(g, seams, half, base);
    lemma_few_seam_steps(g, init, half, base);
    lemma_seam_steps_last(g, seams, half, base);
    if seams.last() == seam {
        head.len() as int
    } else {
        let k = choose|k: int| 0 <= k < seams.len() && seams[k] == seam;
        assert(init[k] == seam);
        let j = lemma_step_of_seam(g, init, half, base, seam);
        assert(steps[j] == head[j]);
        j
    }
}

pub(crate) proof fn lemma_few_seam_steps(
    g: crate::graph::GraphModel,
    seams: Seq<(NodeId, NodeId)>,
    half: Rational,
    base: int,
)
    ensures
        crate::transition_laws::seam_steps(g, seams, half, base).len() <= seams.len(),
    decreases seams.len(),
{
    if seams.len() > 0 {
        lemma_few_seam_steps(g, seams.drop_last(), half, base);
    }
}

/// An edge that takes a transition has a step.
pub(crate) proof fn lemma_step_of_edge(
    g: crate::graph::GraphModel,
    edges: Seq<(NodeId, bool)>,
    length: Rational,
    base: int,
    edge: (NodeId, bool),
) -> (j: int)
    requires
        0 <= base,
        base + edges.len() < u64::MAX,
        edges.contains(edge),
        crate::transitions::edge_plan(g, edge.0, edge.1, length) is Ok,
    ensures
        0 <= j < crate::transition_laws::edge_steps(g, edges, length, base).len() <= edges.len(),
        is_edge_step(
            g,
            length,
            edge,
            crate::transition_laws::edge_steps(g, edges, length, base)[j],
        ),
    decreases edges.len(),
{
    let init = edges.drop_last();
    let head = crate::transition_laws::edge_steps(g, init, length, base);
    let steps = crate::transition_laws::edge_steps(g, edges, length, base);
    lemma_few_edge_steps(g, init, length, base);
    lemma_edge_steps_last(g, edges, length, base);
    if edges.last() == edge {
        head.len() as int
    } else {
        let k = choose|k: int| 0 <= k < edges.len() && edges[k] == edge;
        assert(init[k] == edge);
        let j = lemma_step_of_edge(g, init, length, base, edge);
        assert(steps[j] == head[j]);
        j
    }
}

proof fn lemma_few_edge_steps(
    g: crate::graph::GraphModel,
    edges: Seq<(NodeId, bool)>,
    length: Rational,
    base: int,
)
    ensures
        crate::transition_laws::edge_steps(g, edges, length, base).len() <= edges.len(),
    decreases edges.len(),
{
    if edges.len() > 0 {
        lemma_few_edge_steps(g, edges.drop_last(), length, base);
    }
}

/// Where the step of a seam that a selection asks for stands.
proof fn lemma_seam_step_place(
    g: crate::graph::GraphModel,
    lists: Seq<NodeId>,
    clips: Seq<NodeId>,
    half: Rational,
    seam: (NodeId, NodeId),
    s: Step,
)
    requires
        crate::transition_laws::orderly(g),
        crate::default_transition::wanted(g, lists, clips).seams.contains(seam),
        is_seam_step(g, half, seam, s),
    ensures
        g.track(s.track) is Some,
        s.anchor matches Some(a) ==> g.track(s.track).unwrap().blocks.contains(a),
        g.list_of(s.track) matches Some(l) && lists.contains(l),
{
    reveal(is_seam_step);
    crate::transition_laws::lemma_wanted_seams(g, lists, clips, seam);
    let k = choose|k: int|
        0 <= k < clips.len() && crate::transition_laws::asks_seam(
            g,
            lists,
            #[trigger] clips[k],
            seam,
        );
    crate::transition_laws::lemma_standing(g, lists, clips[k]);
    crate::list::lemma_position(g.track(s.track).unwrap().blocks, seam.0);
}

/// Where the step of an edge that a selection asks for stands.
proof fn lemma_edge_step_place(
    g: crate::graph::GraphModel,
    lists: Seq<NodeId>,
    clips: Seq<NodeId>,
    length: Rational,
    edge: (NodeId, bool),
    s: Step,
)
    requires
        crate::transition_laws::orderly(g),
        crate::default_transition::wanted(g, lists, clips).edges().contains(edge),
        is_edge_step(g, length, edge, s),
    ensures
        g.track(s.track) is Some,
        s.anchor matches Some(a) ==> g.track(s.track).unwrap().blocks.contains(a),
        g.list_of(s.track) matches Some(l) && lists.contains(l),
{
    reveal(is_edge_step);
    let (clip, start_edge) = edge;
    crate::transition_laws::lemma_wanted_edges(g, lists, clips, edge);
    crate::transition_laws::lemma_standing(g, lists, clip);
    let blocks = g.track(s.track).unwrap().blocks;
    let at = crate::list::position_of(blocks, clip).unwrap();
    if start_edge {
        if at > 0 {
            assert(blocks.contains(blocks[at - 1]));
        }
    } else {
        assert(blocks.contains(clip));
    }
}

/// Whether the nodes of the seams and edges are there.
pub(crate) proof fn lemma_wanted_exist(
    g: crate::graph::GraphModel,
    lists: Seq<NodeId>,
    clips: Seq<NodeId>,
)
    requires
        crate::transition_laws::orderly(g),
    ensures
        ({
            let w = crate::default_transition::wanted(g, lists, clips);
            &&& forall|i: int|
                0 <= i < w.seams.len() ==> (#[trigger] w.seams[i]).0 < g.slots.len()
                    && w.seams[i].1 < g.slots.len()
            &&& forall|i: int| 0 <= i < w.edges().len() ==> (#[trigger] w.edges()[i]).0 < g.slots.len()
            &&& w.seams.len() <= 2 * clips.len()
            &&& w.edges().len() <= 2 * clips.len()
            &&& w.seams.no_duplicates()
        }),
{
    let w = crate::default_transition::wanted(g, lists, clips);
    crate::transition_laws::lemma_wanted_seams(g, lists, clips, (0, 0));
    crate::transition_laws::lemma_wanted_edges(g, lists, clips, (0, true));
    assert forall|i: int| 0 <= i < w.seams.len() implies (#[trigger] w.seams[i]).0 < g.slots.len()
        && w.seams[i].1 < g.slots.len() by {
        let seam = w.seams[i];
        crate::transition_laws::lemma_wanted_seams(g, lists, clips, seam);
        assert(w.seams.contains(seam));
        let j = choose|j: int|
            0 <= j < clips.len() && crate::transition_laws::asks_seam(
                g,
                lists,
                #[trigger] clips[j],
                seam,
            );
        crate::transition_laws::lemma_standing(g, lists, clips[j]);
    }
    assert forall|i: int| 0 <= i < w.edges().len() implies (#[trigger] w.edges()[i]).0
        < g.slots.len() by {
        crate::transition_laws::lemma_wanted_edges(g, lists, clips, w.edges()[i]);
        assert(w.edges().contains(w.edges()[i]));
        crate::transition_laws::lemma_standing(g, lists, w.edges()[i].0);
    }
}

/// The step at an index of a batch: of a seam first, then of an edge.
pub open spec fn is_of_wanted(
    g: crate::graph::GraphModel,
    w: crate::default_transition::Wanted,
    half: Rational,
    length: Rational,
    s: Step,
) -> bool {
    is_of_seams(g, half, w.seams, s) || is_of_edges(g, length, w.edges(), s)
}

proof fn lemma_wanted_edges_distinct(
    g: crate::graph::GraphModel,
    lists: Seq<NodeId>,
    clips: Seq<NodeId>,
)
    requires
        clips.no_duplicates(),
    ensures
        crate::default_transition::wanted(g, lists, clips).edges().no_duplicates(),
{
    lemma_wanted_lone_distinct(g, lists, clips);
    crate::transition_laws::lemma_edges_of(
        crate::default_transition::wanted(g, lists, clips).lone,
        (0, true),
    );
}

proof fn lemma_wanted_lone_distinct(
    g: crate::graph::GraphModel,
    lists: Seq<NodeId>,
    clips: Seq<NodeId>,
)
    requires
        clips.no_duplicates(),
    ensures
        crate::default_transition::wanted(g, lists, clips).lone.no_duplicates(),
    decreases clips.len(),
{
    if clips.len() > 0 {
        let init = clips.drop_last();
        let c = clips.last();
        let before = crate::default_transition::wanted(g, lists, init).lone;
        lemma_wanted_lone_distinct(g, lists, init);
        crate::transition_laws::lemma_wanted_lone(g, lists, init, c);
        assert(!init.contains(c)) by {
            if init.contains(c) {
                let k = choose|k: int| 0 <= k < init.len() && init[k] == c;
                assert(clips[k] == clips[clips.len() - 1]);
            }
        }
        assert forall|k: int| 0 <= k < before.len() implies before[k] != c by {
            assert(before.contains(before[k]));
        }
    }
}

/// What a batch of default transitions comes to: its steps.
pub(crate) proof fn lemma_batch_steps(
    g: crate::graph::GraphModel,
    lists: Seq<NodeId>,
    clips: Seq<NodeId>,
    half: Rational,
    length: Rational,
)
    requires
        crate::transition_laws::orderly(g),
        g.slots.len() + 4 * clips.len() < u64::MAX,
    ensures
        ({
            let b = crate::default_transition::default_batch(g, lists, clips, half, length);
            let steps = crate::transition_laws::default_steps(g, lists, clips, half, length);
            let w = crate::default_transition::wanted(g, lists, clips);
            &&& crate::transition_laws::grown(g, b.graph)
            &&& b.graph.slots.len() == g.slots.len() + steps.len()
            &&& b.commands == crate::transition_laws::all_commands(steps)
            &&& b.created == steps.len()
            &&& forall|j: int|
                0 <= j < steps.len() ==> (#[trigger] steps[j]).block == g.slots.len() + j
                    && is_of_wanted(g, w, half, length, steps[j])
        }),
{
    let n = g.slots.len() as int;
    let w = crate::default_transition::wanted(g, lists, clips);
    let none = crate::default_transition::Batch {
        graph: g,
        commands: Seq::empty(),
        created: 0,
    };
    lemma_wanted_exist(g, lists, clips);
    crate::transition_laws::lemma_seam_batch(g, none, w.seams, half);
    let seams = crate::default_transition::with_seams(none, w.seams, half);
    crate::transition_laws::lemma_edge_batch(g, seams, w.edges(), length);
    let first = crate::transition_laws::seam_steps(g, w.seams, half, n);
    let second = crate::transition_laws::edge_steps(g, w.edges(), length, n + first.len());
    let steps = first + second;
    crate::transition_laws::lemma_all_commands_concat(first, second);
    assert(none.commands + crate::transition_laws::all_commands(first)
        =~= crate::transition_laws::all_commands(first));
    lemma_seam_steps(g, w.seams, half, n);
    lemma_edge_steps(g, w.edges(), length, n + first.len());
    assert forall|j: int| 0 <= j < steps.len() implies (#[trigger] steps[j]).block == n + j
        && is_of_wanted(g, w, half, length, steps[j]) by {
        if j < first.len() {
            assert(steps[j] == first[j]);
        } else {
            assert(steps[j] == second[j - first.len()]);
        }
    }
}

/// The steps of a batch stand on the tracks of the sequence.
pub(crate) proof fn lemma_batch_placed(
    g: crate::graph::GraphModel,
    lists: Seq<NodeId>,
    clips: Seq<NodeId>,
    half: Rational,
    length: Rational,
)
    requires
        crate::transition_laws::orderly(g),
        g.slots.len() + 4 * clips.len() < u64::MAX,
    ensures
        ({
            let steps = crate::transition_laws::default_steps(g, lists, clips, half, length);
            &&& placed_steps(g, steps)
            &&& forall|j: int|
                0 <= j < steps.len() ==> (g.list_of((#[trigger] steps[j]).track) matches Some(l)
                    && lists.contains(l))
        }),
{
    let w = crate::default_transition::wanted(g, lists, clips);
    let steps = crate::transition_laws::default_steps(g, lists, clips, half, length);
    lemma_batch_steps(g, lists, clips, half, length);
    assert forall|j: int| 0 <= j < steps.len() implies {
        let s = #[trigger] steps[j];
        &&& s.block == g.slots.len() + j
        &&& g.track(s.track) is Some
        &&& s.anchor matches Some(a) ==> g.track(s.track).unwrap().blocks.contains(a)
        &&& g.list_of(s.track) matches Some(l) && lists.contains(l)
    } by {
        let s = steps[j];
        assert(is_of_wanted(g, w, half, length, s));
        if is_of_seams(g, half, w.seams, s) {
            let i = choose|i: int|
                0 <= i < w.seams.len() && is_seam_step(g, half, #[trigger] w.seams[i], s);
            assert(w.seams.contains(w.seams[i]));
            lemma_seam_step_place(g, lists, clips, half, w.seams[i], s);
        } else {
            let i = choose|i: int|
                0 <= i < w.edges().len() && is_edge_step(g, length, #[trigger] w.edges()[i], s);
            assert(w.edges().contains(w.edges()[i]));
            lemma_edge_step_place(g, lists, clips, length, w.edges()[i], s);
        }
    }
}

/// A row of default transitions can be taken back.
pub proof fn lemma_default_transition_reversible(
    g: crate::graph::GraphModel,
    lists: Seq<NodeId>,
    clips: Seq<NodeId>,
    half: Rational,
    length: Rational,
)
    requires
        crate::transition_laws::orderly(g),
        g.slots.len() + 4 * clips.len() < u64::MAX,
    ensures
        ({
            let b = crate::default_transition::default_batch(g, lists, clips, half, length);
            &&& crate::reversal::reversible_all(b.graph, b.commands)
            &&& b.graph.redone_all(b.commands).undone_all(b.commands) == b.graph
        }),
{
    let b = crate::default_transition::default_batch(g, lists, clips, half, length);
    lemma_batch_steps(g, lists, clips, half, length);
    lemma_batch_placed(g, lists, clips, half, length);
    lemma_counted(
        g,
        b.graph,
        crate::transition_laws::default_steps(g, lists, clips, half, length),
    );
    crate::reversal::lemma_undo_redo_all(b.graph, b.commands);
}

/// A row of default transitions adds exactly as many blocks to the tracks as
/// it says: every new node is a transition that stands on one track, and on
/// it once. The blocks that were there stay in their order, no clip changes,
/// and a track of another sequence is left as it is.
pub proof fn lemma_default_transition_count(
    g: crate::graph::GraphModel,
    lists: Seq<NodeId>,
    clips: Seq<NodeId>,
    half: Rational,
    length: Rational,
)
    requires
        crate::transition_laws::orderly(g),
        g.slots.len() + 4 * clips.len() < u64::MAX,
    ensures
        ({
            let b = crate::default_transition::default_batch(g, lists, clips, half, length);
            let now = b.graph.redone_all(b.commands);
            let n = g.slots.len() as int;
            &&& now.slots.len() == n + b.created
            &&& forall|id: NodeId|
                n <= id < n + b.created ==> (#[trigger] now.transition(id) matches Some(t) && (
                t.core.track matches Some(track) && track < n && stands_on(now, track, id)))
            &&& forall|id: NodeId, track: NodeId|
                n <= id < n + b.created && #[trigger] stands_on(now, track, id)
                    ==> now.track_of(id) == Some(track)
            &&& forall|track: NodeId|
                #![trigger now.track(track)]
                now.track(track) is Some <==> g.track(track) is Some
            &&& forall|track: NodeId|
                #![trigger now.track(track)]
                g.track(track) is Some ==> now.track(track).unwrap().blocks.no_duplicates()
                    && old_blocks(now.track(track).unwrap().blocks, n) == g.track(
                    track,
                ).unwrap().blocks
            &&& forall|id: NodeId| #[trigger] now.clip(id) == g.clip(id)
            &&& forall|track: NodeId|
                track < n && !(g.list_of(track) matches Some(l) && lists.contains(l))
                    ==> #[trigger] now.node(track) == g.node(track)
        }),
{
    let b = crate::default_transition::default_batch(g, lists, clips, half, length);
    let steps = crate::transition_laws::default_steps(g, lists, clips, half, length);
    let n = g.slots.len() as int;
    lemma_batch_steps(g, lists, clips, half, length);
    lemma_batch_placed(g, lists, clips, half, length);
    let start = b.graph;
    lemma_counted(g, start, steps);
    let now = start.redone_all(b.commands);
    assert forall|id: NodeId| n <= id < n + b.created implies (#[trigger] now.transition(
        id,
    ) matches Some(t) && (t.core.track matches Some(track) && track < n && stands_on(
        now,
        track,
        id,
    ))) by {
        let s = steps[id - n];
        assert(s.block == id);
        assert(crate::transition_laws::untouched(start.node(id).unwrap()));
        assert(stands_on(now, s.track, s.block));
    }
    assert forall|track: NodeId|
        #![trigger now.track(track)]
        now.track(track) is Some <==> g.track(track) is Some by {
        if track < n {
            if g.track(track) is None {
                assert(now.node(track) == g.node(track));
            }
        } else if track < n + b.created {
            assert(now.transition(track) is Some);
        }
    }
    assert forall|id: NodeId, track: NodeId|
        n <= id < n + b.created && #[trigger] stands_on(now, track, id) implies now.track_of(id)
        == Some(track) by {
        let s = steps[id - n];
        assert(s.block == id);
        assert(crate::transition_laws::untouched(start.node(id).unwrap()));
        assert(now.track(track) is Some);
        assert(g.track(track) is Some);
        assert(track < n);
    }
    assert forall|id: NodeId| #[trigger] now.clip(id) == g.clip(id) by {
        if id < n {
            if g.track(id) is None {
                assert(now.node(id) == g.node(id));
            } else {
                assert(now.track(id) is Some);
            }
        } else if id < n + b.created {
            assert(now.transition(id) is Some);
        }
    }
    assert forall|track: NodeId|
        track < n && !(g.list_of(track) matches Some(l)
            && lists.contains(l)) implies #[trigger] now.node(track) == g.node(track) by {
        if g.track(track) is Some {
            assert(now.track(track) is Some);
            let f = now.track(track).unwrap().blocks;
            assert forall|k: int| 0 <= k < f.len() implies (#[trigger] f[k]) < n by {
                let x = f[k];
                if x >= n {
                    let s = steps[x - n];
                    assert(s.block == x);
                    assert(f.contains(x));
                    assert(stands_on(now, track, s.block));
                }
            }
            lemma_all_old(f, n);
            assert(crate::transition_laws::relisted(g.node(track).unwrap(), f) =~= g.node(
                track,
            ).unwrap());
        }
    }
}

/// What feeds the two sides of a transition.
pub open spec fn sides(g: crate::graph::GraphModel, id: NodeId) -> (Option<NodeId>, Option<NodeId>) {
    (g.connected_output(id, OUT_BLOCK@), g.connected_output(id, IN_BLOCK@))
}

/// Whether a transition is one that a selection asks for, at a place that
/// takes it.
pub open spec fn is_wanted(
    g: crate::graph::GraphModel,
    w: crate::default_transition::Wanted,
    half: Rational,
    length: Rational,
    sides: (Option<NodeId>, Option<NodeId>),
) -> bool {
    match sides {
        (Some(prev), Some(next)) => w.seams.contains((prev, next))
            && crate::transitions::seam_plan(g, prev, next, half) is Ok,
        (None, Some(clip)) => w.edges().contains((clip, true)) && crate::transitions::edge_plan(
            g,
            clip,
            true,
            length,
        ) is Ok,
        (Some(clip), None) => w.edges().contains((clip, false)) && crate::transitions::edge_plan(
            g,
            clip,
            false,
            length,
        ) is Ok,
        (None, None) => false,
    }
}

proof fn lemma_is_wanted(
    g: crate::graph::GraphModel,
    w: crate::default_transition::Wanted,
    half: Rational,
    length: Rational,
    s: Step,
)
    requires
        is_of_wanted(g, w, half, length, s),
    ensures
        is_wanted(g, w, half, length, step_sides(s)),
{
    if is_of_seams(g, half, w.seams, s) {
        let i = choose|i: int|
            0 <= i < w.seams.len() && is_seam_step(g, half, #[trigger] w.seams[i], s);
        lemma_seam_step_sides(g, half, w.seams[i], s);
        assert(w.seams[i] == (w.seams[i].0, w.seams[i].1));
        assert(w.seams.contains(w.seams[i]));
    } else {
        let i = choose|i: int|
            0 <= i < w.edges().len() && is_edge_step(g, length, #[trigger] w.edges()[i], s);
        lemma_edge_step_sides(g, length, w.edges()[i], s);
        assert(w.edges()[i] == (w.edges()[i].0, w.edges()[i].1));
        assert(w.edges().contains(w.edges()[i]));
    }
}

/// No two steps of a batch have the same sides, but for two of one edge.
pub(crate) proof fn lemma_steps_differ(
    g: crate::graph::GraphModel,
    lists: Seq<NodeId>,
    clips: Seq<NodeId>,
    half: Rational,
    length: Rational,
    x: int,
    y: int,
)
    requires
        crate::transition_laws::orderly(g),
        g.slots.len() + 4 * clips.len() < u64::MAX,
        0 <= x < y < crate::transition_laws::default_steps(g, lists, clips, half, length).len(),
        ({
            let steps = crate::transition_laws::default_steps(g, lists, clips, half, length);
            step_sides(steps[x]) == step_sides(steps[y])
        }),
    ensures
        ({
            let s = crate::transition_laws::default_steps(g, lists, clips, half, length)[x];
            &&& s.from is None || s.to is None
            &&& !clips.no_duplicates()
        }),
{
    let n = g.slots.len() as int;
    let w = crate::default_transition::wanted(g, lists, clips);
    lemma_wanted_exist(g, lists, clips);
    let first = crate::transition_laws::seam_steps(g, w.seams, half, n);
    let second = crate::transition_laws::edge_steps(g, w.edges(), length, n + first.len());
    let steps = first + second;
    lemma_seam_steps(g, w.seams, half, n);
    lemma_edge_steps(g, w.edges(), length, n + first.len());
    if x < first.len() {
        assert(steps[x] == first[x]);
        assert(is_of_seams(g, half, w.seams, first[x]));
        let i = choose|i: int|
            0 <= i < w.seams.len() && is_seam_step(g, half, #[trigger] w.seams[i], first[x]);
        lemma_seam_step_sides(g, half, w.seams[i], first[x]);
        if y < first.len() {
            assert(steps[y] == first[y]);
        } else {
            let q = second[y - first.len()];
            assert(steps[y] == q);
            assert(is_of_edges(g, length, w.edges(), q));
            let k = choose|k: int|
                0 <= k < w.edges().len() && is_edge_step(g, length, #[trigger] w.edges()[k], q);
            lemma_edge_step_sides(g, length, w.edges()[k], q);
        }
    } else {
        let p = second[x - first.len()];
        assert(steps[x] == p);
        assert(steps[y] == second[y - first.len()]);
        assert(is_of_edges(g, length, w.edges(), p));
        let k = choose|k: int|
            0 <= k < w.edges().len() && is_edge_step(g, length, #[trigger] w.edges()[k], p);
        lemma_edge_step_sides(g, length, w.edges()[k], p);
        if clips.no_duplicates() {
            lemma_wanted_edges_distinct(g, lists, clips);
        }
    }
}

/// Which transitions a row of default transitions adds: one at every seam
/// around the selection that takes one, one on every free edge of it that
/// takes one, and no other. A seam gets one, though both its clips be
/// selected; so does an edge, when no clip is selected twice.
pub proof fn lemma_default_transition_places(
    g: crate::graph::GraphModel,
    lists: Seq<NodeId>,
    clips: Seq<NodeId>,
    half: Rational,
    length: Rational,
)
    requires
        crate::transition_laws::orderly(g),
        g.slots.len() + 4 * clips.len() < u64::MAX,
    ensures
        ({
            let b = crate::default_transition::default_batch(g, lists, clips, half, length);
            let now = b.graph.redone_all(b.commands);
            let w = crate::default_transition::wanted(g, lists, clips);
            let n = g.slots.len() as int;
            &&& forall|id: NodeId|
                n <= id < n + b.created ==> is_wanted(
                    g,
                    w,
                    half,
                    length,
                    #[trigger] sides(now, id),
                )
            &&& forall|seam: (NodeId, NodeId)|
                #![trigger w.seams.contains(seam)]
                w.seams.contains(seam) && crate::transitions::seam_plan(g, seam.0, seam.1, half) is Ok
                    ==> exists|id: NodeId|
                    n <= id < n + b.created && #[trigger] sides(now, id) == seam_sides(seam)
            &&& forall|edge: (NodeId, bool)|
                #![trigger w.edges().contains(edge)]
                w.edges().contains(edge) && crate::transitions::edge_plan(
                    g,
                    edge.0,
                    edge.1,
                    length,
                ) is Ok ==> exists|id: NodeId|
                    n <= id < n + b.created && #[trigger] sides(now, id) == edge_sides(edge)
            &&& forall|i: NodeId, j: NodeId|
                n <= i < j < n + b.created && #[trigger] sides(now, i) == #[trigger] sides(now, j)
                    ==> !(sides(now, i).0 is Some && sides(now, i).1 is Some)
            &&& clips.no_duplicates() ==> forall|i: NodeId, j: NodeId|
                n <= i < j < n + b.created ==> #[trigger] sides(now, i) != #[trigger] sides(now, j)
        }),
{
    let b = crate::default_transition::default_batch(g, lists, clips, half, length);
    let steps = crate::transition_laws::default_steps(g, lists, clips, half, length);
    let w = crate::default_transition::wanted(g, lists, clips);
    let n = g.slots.len() as int;
    lemma_batch_steps(g, lists, clips, half, length);
    lemma_batch_placed(g, lists, clips, half, length);
    let start = b.graph;
    lemma_counted(g, start, steps);
    let now = start.redone_all(b.commands);
    lemma_wanted_exist(g, lists, clips);
    assert forall|j: int| 0 <= j < steps.len() implies sides(now, (#[trigger] steps[j]).block)
        == step_sides(steps[j]) && steps[j].block == n + j by {
        let s = steps[j];
        let node = crate::transition_laws::entered_node(start.node(s.block).unwrap(), s);
        assert(now.node(s.block) == Some(node));
        crate::transition_laws::lemma_wired(node, s.from, s.to);
    }
    assert forall|id: NodeId| n <= id < n + b.created implies is_wanted(
        g,
        w,
        half,
        length,
        #[trigger] sides(now, id),
    ) by {
        let s = steps[id - n];
        assert(s.block == id);
        lemma_is_wanted(g, w, half, length, s);
    }
    let first = crate::transition_laws::seam_steps(g, w.seams, half, n);
    let second = crate::transition_laws::edge_steps(g, w.edges(), length, n + first.len());
    lemma_few_seam_steps(g, w.seams, half, n);
    assert forall|seam: (NodeId, NodeId)|
        #![trigger w.seams.contains(seam)]
        w.seams.contains(seam) && crate::transitions::seam_plan(
            g,
            seam.0,
            seam.1,
            half,
        ) is Ok implies exists|id: NodeId|
        n <= id < n + b.created && #[trigger] sides(now, id) == seam_sides(seam) by {
        let j = lemma_step_of_seam(g, w.seams, half, n, seam);
        assert(steps[j] == first[j]);
        lemma_seam_step_sides(g, half, seam, first[j]);
        assert(sides(now, steps[j].block) == seam_sides(seam));
    }
    assert forall|edge: (NodeId, bool)|
        #![trigger w.edges().contains(edge)]
        w.edges().contains(edge) && crate::transitions::edge_plan(
            g,
            edge.0,
            edge.1,
            length,
        ) is Ok implies exists|id: NodeId|
        n <= id < n + b.created && #[trigger] sides(now, id) == edge_sides(edge) by {
        let j = lemma_step_of_edge(g, w.edges(), length, n + first.len(), edge);
        let at = first.len() as int + j;
        assert(steps[at] == second[j]);
        lemma_edge_step_sides(g, length, edge, second[j]);
        assert(sides(now, steps[at].block) == edge_sides(edge));
    }
    assert forall|i: NodeId, j: NodeId|
        n <= i < j < n + b.created && #[trigger] sides(now, i) == #[trigger] sides(now, j) implies !(
    sides(now, i).0 is Some && sides(now, i).1 is Some) && !clips.no_duplicates() by {
        assert(steps[i - n].block == i && steps[j - n].block == j);
        lemma_steps_differ(g, lists, clips, half, length, i - n, j - n);
    }
}

} // verus!
