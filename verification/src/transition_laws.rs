//! What adding a transition promises, and the steps that a row of default
//! transitions comes to.

use crate::commands::{Command, Port};
use crate::graph::{Block, NodeId, Transition, IN_BLOCK, OUT_BLOCK};
use crate::rational::Rational;
use vstd::prelude::*;

verus! {

/// One transition to enter: behind `anchor` on its track, fed by `from` and
/// `to` where there is one.
pub struct Step {
    pub track: NodeId,
    pub anchor: Option<NodeId>,
    pub block: NodeId,
    pub from: Option<NodeId>,
    pub to: Option<NodeId>,
}

/// The command that wires one side, if that side is wired.
pub open spec fn wire(source: Option<NodeId>, block: NodeId, port: Port) -> Seq<Command> {
    match source {
        Some(s) => seq![Command::Connect { from: s, to: block, port }],
        None => Seq::empty(),
    }
}

/// The commands of a step.
pub open spec fn step_commands(s: Step) -> Seq<Command> {
    seq![Command::InsertAfter { track: s.track, block: s.block, anchor: s.anchor }] + wire(
        s.from,
        s.block,
        Port::OutBlock,
    ) + wire(s.to, s.block, Port::InBlock)
}

/// The two inputs of a transition.
pub open spec fn wired(from: Option<NodeId>, to: Option<NodeId>) -> Seq<crate::graph::InputModel> {
    seq![
        crate::graph::InputModel {
            id: OUT_BLOCK@,
            element: (-1) as i32,
            connectable: true,
            source: from,
        },
        crate::graph::InputModel {
            id: IN_BLOCK@,
            element: (-1) as i32,
            connectable: true,
            source: to,
        },
    ]
}

proof fn lemma_names()
    ensures
        OUT_BLOCK@ != IN_BLOCK@,
{
    reveal_strlit("out_block_in");
    reveal_strlit("in_block_in");
    assert(OUT_BLOCK@.len() != IN_BLOCK@.len());
}

pub(crate) proof fn lemma_wired(n: crate::graph::NodeModel, from: Option<NodeId>, to: Option<NodeId>)
    requires
        n.inputs == wired(from, to),
    ensures
        n.input(OUT_BLOCK@) == Some(0int),
        n.input(IN_BLOCK@) == Some(1int),
        n.source(OUT_BLOCK@) == from,
        n.source(IN_BLOCK@) == to,
        forall|x: Option<NodeId>| (#[trigger] n.fed(0, x)).inputs == wired(x, to),
        forall|x: Option<NodeId>| (#[trigger] n.fed(1, x)).inputs == wired(from, x),
{
    lemma_names();
    reveal_with_fuel(crate::graph::input_from, 3);
    assert forall|x: Option<NodeId>| (#[trigger] n.fed(0, x)).inputs == wired(x, to) by {
        assert(n.fed(0, x).inputs =~= wired(x, to));
    }
    assert forall|x: Option<NodeId>| (#[trigger] n.fed(1, x)).inputs == wired(from, x) by {
        assert(n.fed(1, x).inputs =~= wired(from, x));
    }
}

/// A transition node that no edit has touched.
pub open spec fn untouched(n: crate::graph::NodeModel) -> bool {
    &&& n.inputs == wired(None, None)
    &&& n.behavior matches crate::graph::BehaviorModel::Transition(t) && t.core.track is None
}

proof fn lemma_transition_node(t: Transition)
    requires
        t.core.track is None,
    ensures
        untouched(crate::transitions::transition_node(t)),
{
    assert(crate::transitions::transition_node(t).inputs =~= wired(None, None));
}

/// The transition node after its step.
pub open spec fn entered_node(n: crate::graph::NodeModel, s: Step) -> crate::graph::NodeModel {
    crate::graph::NodeModel {
        behavior: match n.behavior {
            crate::graph::BehaviorModel::Transition(t) => crate::graph::BehaviorModel::Transition(
                Transition { core: Block { track: Some(s.track), ..t.core }, ..t },
            ),
            b => b,
        },
        inputs: wired(s.from, s.to),
        ..n
    }
}

/// The track node with other blocks.
pub open spec fn relisted(n: crate::graph::NodeModel, blocks: Seq<NodeId>) -> crate::graph::NodeModel {
    crate::graph::NodeModel {
        behavior: match n.behavior {
            crate::graph::BehaviorModel::Track(t) => crate::graph::BehaviorModel::Track(
                crate::graph::TrackModel { blocks, ..t },
            ),
            b => b,
        },
        ..n
    }
}

/// Whether a step can be taken in `h`: the track is there, and the transition
/// is a node that nothing has touched and no track lists.
pub open spec fn ready(h: crate::graph::GraphModel, s: Step) -> bool {
    &&& h.track(s.track) is Some
    &&& !h.track(s.track).unwrap().blocks.contains(s.block)
    &&& h.node(s.block) is Some
    &&& untouched(h.node(s.block).unwrap())
}

/// The graph after a step.
pub open spec fn after_step(h: crate::graph::GraphModel, s: Step) -> crate::graph::GraphModel {
    h.with_node(
        s.track,
        relisted(
            h.node(s.track).unwrap(),
            crate::commands::inserted_after(
                h.track(s.track).unwrap().blocks,
                s.block,
                s.anchor,
            ),
        ),
    ).with_node(s.block, entered_node(h.node(s.block).unwrap(), s))
}

proof fn lemma_connects(
    h: crate::graph::GraphModel,
    block: NodeId,
    from: Option<NodeId>,
    to: Option<NodeId>,
)
    requires
        h.node(block) is Some,
        h.node(block).unwrap().inputs == wired(None, None),
    ensures
        ({
            let commands = wire(from, block, Port::OutBlock) + wire(to, block, Port::InBlock);
            &&& h.redone_all(commands) == h.with_node(
                block,
                crate::graph::NodeModel { inputs: wired(from, to), ..h.node(block).unwrap() },
            )
            &&& crate::reversal::reversible_all(h, commands)
        }),
{
    reveal_with_fuel(crate::graph::GraphModel::redone_all, 3);
    reveal_with_fuel(crate::reversal::reversible_all, 3);
    let n = h.node(block).unwrap();
    let first = wire(from, block, Port::OutBlock);
    let second = wire(to, block, Port::InBlock);
    let commands = first + second;
    lemma_wired(n, None, None);
    let mid = h.redone_all(first);
    assert(mid =~= h.with_node(
        block,
        crate::graph::NodeModel { inputs: wired(from, None), ..n },
    ) && crate::reversal::reversible_all(h, first)) by {
        if from is Some {
            assert(first.drop_last() =~= Seq::empty());
            assert(mid.slots =~= h.with_node(
                block,
                crate::graph::NodeModel { inputs: wired(from, None), ..n },
            ).slots);
        } else {
            assert(crate::graph::NodeModel { inputs: wired(from, None), ..n } =~= n);
            assert(h.with_node(block, n).slots =~= h.slots);
        }
    }
    let m = mid.node(block).unwrap();
    lemma_wired(m, from, None);
    if to is Some {
        assert(commands.drop_last() =~= first);
        assert(commands.last() == second[0]);
        assert(h.redone_all(commands).slots =~= h.with_node(
            block,
            crate::graph::NodeModel { inputs: wired(from, to), ..n },
        ).slots);
    } else {
        assert(commands =~= first);
    }
}

/// The commands of two rows in a row.
pub proof fn lemma_redone_concat(
    g: crate::graph::GraphModel,
    a: Seq<Command>,
    b: Seq<Command>,
)
    ensures
        g.redone_all(a + b) == g.redone_all(a).redone_all(b),
        crate::reversal::reversible_all(g, a + b) == (crate::reversal::reversible_all(g, a)
            && crate::reversal::reversible_all(g.redone_all(a), b)),
    decreases b.len(),
{
    if b.len() == 0 {
        assert(a + b =~= a);
    } else {
        assert((a + b).drop_last() =~= a + b.drop_last());
        assert((a + b).last() == b.last());
        lemma_redone_concat(g, a, b.drop_last());
    }
}

/// What a step does: the transition stands behind its anchor, fed as planned,
/// and nothing else changes; it can be taken back.
pub proof fn lemma_step(h: crate::graph::GraphModel, s: Step)
    requires
        ready(h, s),
    ensures
        h.redone_all(step_commands(s)) == after_step(h, s),
        crate::reversal::reversible_all(h, step_commands(s)),
{
    let insert = Command::InsertAfter { track: s.track, block: s.block, anchor: s.anchor };
    let head = seq![insert];
    let tail = wire(s.from, s.block, Port::OutBlock) + wire(s.to, s.block, Port::InBlock);
    assert(step_commands(s) =~= head + tail);
    reveal_with_fuel(crate::graph::GraphModel::redone_all, 2);
    reveal_with_fuel(crate::reversal::reversible_all, 2);
    assert(head.drop_last() =~= Seq::empty());
    let mid = h.redone_all(head);
    assert(mid == h.entered(s.track, s.block, s.anchor));
    let n = h.node(s.block).unwrap();
    let m = crate::graph::NodeModel { inputs: n.inputs, ..entered_node(n, s) };
    let listed = h.with_node(
        s.track,
        relisted(
            h.node(s.track).unwrap(),
            crate::commands::inserted_after(
                h.track(s.track).unwrap().blocks,
                s.block,
                s.anchor,
            ),
        ),
    );
    assert(s.track != s.block);
    assert(mid.slots =~= listed.with_node(s.block, m).slots);
    assert(crate::reversal::reversible_all(h, head));
    lemma_connects(mid, s.block, s.from, s.to);
    lemma_redone_concat(h, head, tail);
    assert(mid.redone_all(tail).slots =~= after_step(h, s).slots);
}

/// The place where a block is inserted.
spec fn place(f: Seq<NodeId>, anchor: Option<NodeId>) -> int {
    match anchor {
        Some(a) => crate::list::position_of(f, a).unwrap() + 1,
        None => 0,
    }
}

/// Whether every track lists blocks that there are, each once.
pub open spec fn orderly(g: crate::graph::GraphModel) -> bool {
    forall|id: NodeId|
        #![trigger g.track(id)]
        g.track(id) matches Some(t) ==> {
            &&& t.blocks.no_duplicates()
            &&& forall|i: int| 0 <= i < t.blocks.len() ==> (#[trigger] t.blocks[i]) < g.slots.len()
        }
}

/// Whether `h` is `g` with transitions added that nothing has touched.
pub open spec fn grown(g: crate::graph::GraphModel, h: crate::graph::GraphModel) -> bool {
    &&& g.slots.len() <= h.slots.len() <= u64::MAX
    &&& h.root == g.root
    &&& forall|id: NodeId| id < g.slots.len() ==> #[trigger] h.node(id) == g.node(id)
    &&& forall|id: NodeId|
        g.slots.len() <= id < h.slots.len() ==> (#[trigger] h.node(id)) is Some && untouched(
            h.node(id).unwrap(),
        )
}

/// The commands of all steps, in order.
pub open spec fn all_commands(steps: Seq<Step>) -> Seq<Command>
    decreases steps.len(),
{
    if steps.len() == 0 {
        Seq::empty()
    } else {
        all_commands(steps.drop_last()) + step_commands(steps.last())
    }
}

pub(crate) proof fn lemma_seam_plan_grown(
    g: crate::graph::GraphModel,
    h: crate::graph::GraphModel,
    prev: NodeId,
    next: NodeId,
    half: Rational,
)
    requires
        orderly(g),
        grown(g, h),
        prev < g.slots.len(),
        next < g.slots.len(),
    ensures
        crate::transitions::seam_plan(h, prev, next, half) == crate::transitions::seam_plan(
            g,
            prev,
            next,
            half,
        ),
{
    assert(h.node(prev) == g.node(prev));
    assert(h.node(next) == g.node(next));
    if let Some(left) = g.clip(prev) {
        if let Some(track) = left.track {
            lemma_track_grown(g, h, track);
            if let Some(t) = g.track(track) {
                assert forall|i: int| 0 <= i < t.blocks.len() implies crate::transitions::joins(
                    h,
                    #[trigger] t.blocks[i],
                    prev,
                    next,
                ) == crate::transitions::joins(g, t.blocks[i], prev, next) by {
                    assert(h.node(t.blocks[i]) == g.node(t.blocks[i]));
                }
                assert(crate::transitions::joined_among(h, t.blocks, prev, next)
                    == crate::transitions::joined_among(g, t.blocks, prev, next));
            }
        }
    }
}

proof fn lemma_track_grown(g: crate::graph::GraphModel, h: crate::graph::GraphModel, track: NodeId)
    requires
        grown(g, h),
    ensures
        h.track(track) == g.track(track),
{
    if track < g.slots.len() {
        assert(h.node(track) == g.node(track));
    } else if track < h.slots.len() {
        assert(untouched(h.node(track).unwrap()));
    }
}

proof fn lemma_edge_transition_grown(
    g: crate::graph::GraphModel,
    h: crate::graph::GraphModel,
    clip: NodeId,
    start_edge: bool,
)
    requires
        orderly(g),
        grown(g, h),
        clip < g.slots.len(),
    ensures
        h.edge_transition(clip, start_edge) == g.edge_transition(clip, start_edge),
{
    assert(h.node(clip) == g.node(clip));
    if let Some(track) = g.track_of(clip) {
        lemma_track_grown(g, h, track);
        if let Some(t) = g.track(track) {
            crate::list::lemma_position(t.blocks, clip);
            if let Some(i) = crate::list::position_of(t.blocks, clip) {
                let at = if start_edge {
                    i - 1
                } else {
                    i + 1
                };
                if 0 <= at < t.blocks.len() {
                    assert(h.node(t.blocks[at]) == g.node(t.blocks[at]));
                }
            }
        }
    }
}

pub(crate) proof fn lemma_edge_plan_grown(
    g: crate::graph::GraphModel,
    h: crate::graph::GraphModel,
    clip: NodeId,
    start_edge: bool,
    length: Rational,
)
    requires
        orderly(g),
        grown(g, h),
        clip < g.slots.len(),
    ensures
        crate::transitions::edge_plan(h, clip, start_edge, length)
            == crate::transitions::edge_plan(g, clip, start_edge, length),
{
    assert(h.node(clip) == g.node(clip));
    lemma_edge_transition_grown(g, h, clip, start_edge);
    if let Some(core) = g.clip(clip) {
        if let Some(track) = core.track {
            lemma_track_grown(g, h, track);
        }
    }
}

pub(crate) proof fn lemma_grown_appended(
    g: crate::graph::GraphModel,
    h: crate::graph::GraphModel,
    t: Transition,
)
    requires
        grown(g, h),
        h.slots.len() < u64::MAX,
        t.core.track is None,
    ensures
        grown(g, h.appended(crate::transitions::transition_node(t))),
{
    let more = h.appended(crate::transitions::transition_node(t));
    lemma_transition_node(t);
    assert forall|id: NodeId| id < g.slots.len() implies #[trigger] more.node(id) == g.node(id) by {
        assert(h.node(id) == g.node(id));
    }
    assert forall|id: NodeId| g.slots.len() <= id < more.slots.len() implies (#[trigger] more.node(
        id,
    )) is Some && untouched(more.node(id).unwrap()) by {
        if id < h.slots.len() {
            assert(untouched(h.node(id).unwrap()));
            assert(more.node(id) == h.node(id));
        }
    }
}

/// The step for a seam transition.
pub open spec fn seam_step(
    plan: crate::transitions::TransitionPlan,
    block: NodeId,
    prev: NodeId,
    next: NodeId,
) -> Step {
    Step { track: plan.track, anchor: plan.anchor, block, from: Some(prev), to: Some(next) }
}

/// The step for a single-sided transition.
pub open spec fn edge_step(
    plan: crate::transitions::TransitionPlan,
    block: NodeId,
    clip: NodeId,
    start_edge: bool,
) -> Step {
    Step {
        track: plan.track,
        anchor: plan.anchor,
        block,
        from: if start_edge {
            None
        } else {
            Some(clip)
        },
        to: if start_edge {
            Some(clip)
        } else {
            None
        },
    }
}

/// The steps of the seams, the first block being `block`.
pub open spec fn seam_steps(
    g: crate::graph::GraphModel,
    seams: Seq<(NodeId, NodeId)>,
    half: Rational,
    block: int,
) -> Seq<Step>
    decreases seams.len(),
{
    if seams.len() == 0 {
        Seq::empty()
    } else {
        let head = seam_steps(g, seams.drop_last(), half, block);
        let (prev, next) = seams.last();
        match crate::transitions::seam_plan(g, prev, next, half) {
            Err(_) => head,
            Ok(plan) => head.push(seam_step(plan, (block + head.len()) as u64, prev, next)),
        }
    }
}

/// The steps of the edges, the first block being `block`.
pub open spec fn edge_steps(
    g: crate::graph::GraphModel,
    edges: Seq<(NodeId, bool)>,
    length: Rational,
    block: int,
) -> Seq<Step>
    decreases edges.len(),
{
    if edges.len() == 0 {
        Seq::empty()
    } else {
        let head = edge_steps(g, edges.drop_last(), length, block);
        let (clip, start_edge) = edges.last();
        match crate::transitions::edge_plan(g, clip, start_edge, length) {
            Err(_) => head,
            Ok(plan) => head.push(edge_step(plan, (block + head.len()) as u64, clip, start_edge)),
        }
    }
}

proof fn lemma_all_commands_push(steps: Seq<Step>, s: Step)
    ensures
        all_commands(steps.push(s)) == all_commands(steps) + step_commands(s),
{
    assert(steps.push(s).drop_last() =~= steps);
}

pub(crate) proof fn lemma_seam_batch(
    g: crate::graph::GraphModel,
    b: crate::default_transition::Batch,
    seams: Seq<(NodeId, NodeId)>,
    half: Rational,
)
    requires
        orderly(g),
        grown(g, b.graph),
        b.graph.slots.len() + seams.len() < u64::MAX,
        forall|i: int|
            0 <= i < seams.len() ==> (#[trigger] seams[i]).0 < g.slots.len() && seams[i].1
                < g.slots.len(),
    ensures
        ({
            let r = crate::default_transition::with_seams(b, seams, half);
            let steps = seam_steps(g, seams, half, b.graph.slots.len() as int);
            &&& grown(g, r.graph)
            &&& steps.len() <= seams.len()
            &&& r.graph.slots.len() == b.graph.slots.len() + steps.len()
            &&& r.commands == b.commands + all_commands(steps)
            &&& r.created == b.created + steps.len()
        }),
    decreases seams.len(),
{
    if seams.len() == 0 {
        assert(b.commands + Seq::<Command>::empty() =~= b.commands);
    } else {
        let init = seams.drop_last();
        let (prev, next) = seams.last();
        assert forall|i: int| 0 <= i < init.len() implies (#[trigger] init[i]).0 < g.slots.len()
            && init[i].1 < g.slots.len() by {
            assert(init[i] == seams[i]);
        }
        lemma_seam_batch(g, b, init, half);
        let done = crate::default_transition::with_seams(b, init, half);
        let head = seam_steps(g, init, half, b.graph.slots.len() as int);
        assert(seams[seams.len() - 1] == (prev, next));
        lemma_seam_plan_grown(g, done.graph, prev, next, half);
        match crate::transitions::seam_plan(g, prev, next, half) {
            Err(_) => {},
            Ok(plan) => {
                let id = done.graph.next_id();
                let s = seam_step(plan, id, prev, next);
                lemma_grown_appended(g, done.graph, plan.transition);
                lemma_all_commands_push(head, s);
                assert(crate::transitions::seam_commands(plan, id, prev, next) =~= step_commands(
                    s,
                ));
                assert(b.commands + (all_commands(head) + step_commands(s)) =~= (b.commands
                    + all_commands(head)) + step_commands(s));
            },
        }
    }
}

pub(crate) proof fn lemma_edge_batch(
    g: crate::graph::GraphModel,
    b: crate::default_transition::Batch,
    edges: Seq<(NodeId, bool)>,
    length: Rational,
)
    requires
        orderly(g),
        grown(g, b.graph),
        b.graph.slots.len() + edges.len() < u64::MAX,
        forall|i: int| 0 <= i < edges.len() ==> (#[trigger] edges[i]).0 < g.slots.len(),
    ensures
        ({
            let r = crate::default_transition::with_edges(b, edges, length);
            let steps = edge_steps(g, edges, length, b.graph.slots.len() as int);
            &&& grown(g, r.graph)
            &&& steps.len() <= edges.len()
            &&& r.graph.slots.len() == b.graph.slots.len() + steps.len()
            &&& r.commands == b.commands + all_commands(steps)
            &&& r.created == b.created + steps.len()
        }),
    decreases edges.len(),
{
    if edges.len() == 0 {
        assert(b.commands + Seq::<Command>::empty() =~= b.commands);
    } else {
        let init = edges.drop_last();
        let (clip, start_edge) = edges.last();
        assert forall|i: int| 0 <= i < init.len() implies (#[trigger] init[i]).0
            < g.slots.len() by {
            assert(init[i] == edges[i]);
        }
        lemma_edge_batch(g, b, init, length);
        let done = crate::default_transition::with_edges(b, init, length);
        let head = edge_steps(g, init, length, b.graph.slots.len() as int);
        assert(edges[edges.len() - 1] == (clip, start_edge));
        lemma_edge_plan_grown(g, done.graph, clip, start_edge, length);
        match crate::transitions::edge_plan(g, clip, start_edge, length) {
            Err(_) => {},
            Ok(plan) => {
                let id = done.graph.next_id();
                let s = edge_step(plan, id, clip, start_edge);
                lemma_grown_appended(g, done.graph, plan.transition);
                lemma_all_commands_push(head, s);
                assert(crate::transitions::edge_commands(plan, id, clip, start_edge)
                    =~= step_commands(s));
                assert(b.commands + (all_commands(head) + step_commands(s)) =~= (b.commands
                    + all_commands(head)) + step_commands(s));
            },
        }
    }
}

/// Whether a clip asks for a seam: one of the two it touches a clip at.
pub open spec fn asks_seam(
    g: crate::graph::GraphModel,
    lists: Seq<NodeId>,
    clip: NodeId,
    seam: (NodeId, NodeId),
) -> bool {
    match crate::default_transition::standing(g, lists, clip) {
        None => false,
        Some((blocks, i)) => {
            ||| crate::default_transition::seam_before(g, blocks, i) && seam == (
                blocks[i - 1],
                clip,
            )
            ||| crate::default_transition::seam_behind(g, blocks, i) && seam == (
                clip,
                blocks[i + 1],
            )
        },
    }
}

/// Whether a clip touches no other, and no block of its track is wired to it.
pub open spec fn free(g: crate::graph::GraphModel, lists: Seq<NodeId>, clip: NodeId) -> bool {
    match crate::default_transition::standing(g, lists, clip) {
        None => false,
        Some((blocks, i)) => {
            &&& !crate::default_transition::seam_before(g, blocks, i)
            &&& !crate::default_transition::seam_behind(g, blocks, i)
            &&& !crate::default_transition::wired_among(g, blocks, clip)
        },
    }
}

proof fn lemma_with_seam(seams: Seq<(NodeId, NodeId)>, new: (NodeId, NodeId), seam: (NodeId, NodeId))
    ensures
        crate::default_transition::with_seam(seams, new).contains(seam) == (seams.contains(seam)
            || seam == new),
        crate::default_transition::with_seam(seams, new).len() <= seams.len() + 1,
{
    let more = crate::default_transition::with_seam(seams, new);
    if !seams.contains(new) {
        if more.contains(seam) {
            let k = choose|k: int| 0 <= k < more.len() && more[k] == seam;
            if k < seams.len() {
                assert(seams[k] == seam);
            }
        }
        if seams.contains(seam) {
            let k = choose|k: int| 0 <= k < seams.len() && seams[k] == seam;
            assert(more[k] == seam);
        }
        assert(more[seams.len() as int] == new);
    }
}

/// A selection asks for exactly the seams that one of its clips touches, and
/// for each of them once.
pub proof fn lemma_wanted_seams(
    g: crate::graph::GraphModel,
    lists: Seq<NodeId>,
    clips: Seq<NodeId>,
    seam: (NodeId, NodeId),
)
    ensures
        crate::default_transition::wanted(g, lists, clips).seams.contains(seam) == exists|j: int|
            0 <= j < clips.len() && asks_seam(g, lists, #[trigger] clips[j], seam),
        crate::default_transition::wanted(g, lists, clips).seams.len() <= 2 * clips.len(),
        crate::default_transition::wanted(g, lists, clips).seams.no_duplicates(),
    decreases clips.len(),
{
    if clips.len() > 0 {
        let init = clips.drop_last();
        let c = clips.last();
        let w = crate::default_transition::wanted(g, lists, init);
        lemma_wanted_seams(g, lists, init, seam);
        let all = crate::default_transition::wanted(g, lists, clips);
        assert(all.seams.contains(seam) == (w.seams.contains(seam) || asks_seam(
            g,
            lists,
            c,
            seam,
        )) && all.seams.len() <= w.seams.len() + 2) by {
            if let Some((blocks, i)) = crate::default_transition::standing(g, lists, c) {
                let first = if crate::default_transition::seam_before(g, blocks, i) {
                    crate::default_transition::with_seam(w.seams, (blocks[i - 1], c))
                } else {
                    w.seams
                };
                lemma_with_seam(w.seams, (blocks[i - 1], c), seam);
                lemma_with_seam(first, (c, blocks[i + 1]), seam);
            }
        }
        if exists|j: int| 0 <= j < init.len() && asks_seam(g, lists, #[trigger] init[j], seam) {
            let j = choose|j: int|
                0 <= j < init.len() && asks_seam(g, lists, #[trigger] init[j], seam);
            assert(asks_seam(g, lists, clips[j], seam));
        }
        if exists|j: int| 0 <= j < clips.len() && asks_seam(g, lists, #[trigger] clips[j], seam) {
            let j = choose|j: int|
                0 <= j < clips.len() && asks_seam(g, lists, #[trigger] clips[j], seam);
            if j < init.len() {
                assert(asks_seam(g, lists, init[j], seam));
            }
        }
        if asks_seam(g, lists, c, seam) {
            assert(asks_seam(g, lists, clips[clips.len() - 1], seam));
        }
    }
}

/// A selection asks for the edges of exactly those of its clips that touch no
/// other clip and that no transition is wired to.
pub proof fn lemma_wanted_lone(
    g: crate::graph::GraphModel,
    lists: Seq<NodeId>,
    clips: Seq<NodeId>,
    clip: NodeId,
)
    ensures
        crate::default_transition::wanted(g, lists, clips).lone.contains(clip) == (clips.contains(
            clip,
        ) && free(g, lists, clip)),
        crate::default_transition::wanted(g, lists, clips).lone.len() <= clips.len(),
    decreases clips.len(),
{
    if clips.len() > 0 {
        let init = clips.drop_last();
        let c = clips.last();
        let before = crate::default_transition::wanted(g, lists, init).lone;
        let all = crate::default_transition::wanted(g, lists, clips).lone;
        lemma_wanted_lone(g, lists, init, clip);
        assert(clips =~= init.push(c));
        lemma_push_contains(init, c, clip);
        if free(g, lists, c) {
            assert(all == before.push(c));
            lemma_push_contains(before, c, clip);
        } else {
            assert(all == before);
        }
    }
}

proof fn lemma_push_contains(s: Seq<NodeId>, x: NodeId, y: NodeId)
    ensures
        s.push(x).contains(y) == (s.contains(y) || y == x),
{
    let more = s.push(x);
    if more.contains(y) {
        let k = choose|k: int| 0 <= k < more.len() && more[k] == y;
        if k < s.len() {
            assert(s[k] == y);
        }
    }
    if s.contains(y) {
        let k = choose|k: int| 0 <= k < s.len() && s[k] == y;
        assert(more[k] == y);
    }
    assert(more[s.len() as int] == x);
}

/// The edges of some clips: two of each.
pub(crate) proof fn lemma_edges_of(lone: Seq<NodeId>, edge: (NodeId, bool))
    ensures
        crate::default_transition::edges_of(lone).contains(edge) == lone.contains(edge.0),
        crate::default_transition::edges_of(lone).len() == 2 * lone.len(),
        lone.no_duplicates() ==> crate::default_transition::edges_of(lone).no_duplicates(),
{
    let edges = crate::default_transition::edges_of(lone);
    let n = lone.len() as int;
    assert forall|i: int| 0 <= i < edges.len() implies #[trigger] edges[i] == (if i < n {
        (lone[i], true)
    } else {
        (lone[i - n], false)
    }) by {}
    if edges.contains(edge) {
        let k = choose|k: int| 0 <= k < edges.len() && edges[k] == edge;
        if k < n {
            assert(lone[k] == edge.0);
        } else {
            assert(lone[k - n] == edge.0);
        }
    }
    if lone.contains(edge.0) {
        let k = choose|k: int| 0 <= k < lone.len() && lone[k] == edge.0;
        assert(edges[k] == (edge.0, true));
        assert(edges[k + n] == (edge.0, false));
        assert(edge == (edge.0, true) || edge == (edge.0, false));
    }
}

/// A selection asks for both edges of exactly those of its clips that touch
/// no other clip and that no transition is wired to.
pub proof fn lemma_wanted_edges(
    g: crate::graph::GraphModel,
    lists: Seq<NodeId>,
    clips: Seq<NodeId>,
    edge: (NodeId, bool),
)
    ensures
        crate::default_transition::wanted(g, lists, clips).edges().contains(edge) == (
        clips.contains(edge.0) && free(g, lists, edge.0)),
        crate::default_transition::wanted(g, lists, clips).edges().len() <= 2 * clips.len(),
{
    lemma_wanted_lone(g, lists, clips, edge.0);
    lemma_edges_of(crate::default_transition::wanted(g, lists, clips).lone, edge);
}

pub(crate) proof fn lemma_standing(g: crate::graph::GraphModel, lists: Seq<NodeId>, clip: NodeId)
    requires
        orderly(g),
        crate::default_transition::standing(g, lists, clip) is Some,
    ensures
        ({
            let (blocks, i) = crate::default_transition::standing(g, lists, clip).unwrap();
            let track = g.track_of(clip).unwrap();
            &&& g.track_of(clip) is Some
            &&& g.track(track) is Some
            &&& blocks == g.track(track).unwrap().blocks
            &&& crate::list::position_of(blocks, clip) == Some(i)
            &&& 0 <= i < blocks.len()
            &&& blocks[i] == clip
            &&& clip < g.slots.len()
            &&& g.clip(clip) is Some
            &&& g.clip(clip).unwrap().track == Some(track)
        }),
{
    let (blocks, i) = crate::default_transition::standing(g, lists, clip).unwrap();
    crate::list::lemma_position(blocks, clip);
}

pub(crate) proof fn lemma_all_commands_concat(a: Seq<Step>, b: Seq<Step>)
    ensures
        all_commands(a + b) == all_commands(a) + all_commands(b),
    decreases b.len(),
{
    if b.len() == 0 {
        assert(a + b =~= a);
        assert(all_commands(a) + Seq::<Command>::empty() =~= all_commands(a));
    } else {
        assert((a + b).drop_last() =~= a + b.drop_last());
        assert((a + b).last() == b.last());
        lemma_all_commands_concat(a, b.drop_last());
        assert(all_commands(a) + (all_commands(b.drop_last()) + step_commands(b.last())) =~= (
        all_commands(a) + all_commands(b.drop_last())) + step_commands(b.last()));
    }
}

/// The steps that a batch of default transitions takes.
pub open spec fn default_steps(
    g: crate::graph::GraphModel,
    lists: Seq<NodeId>,
    clips: Seq<NodeId>,
    half: Rational,
    length: Rational,
) -> Seq<Step> {
    let w = crate::default_transition::wanted(g, lists, clips);
    let first = seam_steps(g, w.seams, half, g.slots.len() as int);
    first + edge_steps(g, w.edges(), length, g.slots.len() as int + first.len())
}

/// Whether the track at `track` lists blocks that there are, each once.
pub open spec fn listed_once(g: crate::graph::GraphModel, track: NodeId) -> bool {
    g.track(track) matches Some(t) ==> {
        &&& t.blocks.no_duplicates()
        &&& forall|i: int| 0 <= i < t.blocks.len() ==> (#[trigger] t.blocks[i]) < g.slots.len()
    }
}

/// What entering one new transition leaves: it stands right behind its
/// anchor, every other block keeps its neighbours, and the row can be taken
/// back.
proof fn lemma_entered_transition(
    g: crate::graph::GraphModel,
    t: Transition,
    s: Step,
)
    requires
        g.slots.len() < u64::MAX,
        t.core.track is None,
        s.block == g.next_id(),
        g.track(s.track) is Some,
        listed_once(g, s.track),
        s.anchor matches Some(a) ==> g.track(s.track).unwrap().blocks.contains(a),
    ensures
        ({
            let start = g.appended(crate::transitions::transition_node(t));
            let now = start.redone_all(step_commands(s));
            let b = g.track(s.track).unwrap().blocks;
            &&& crate::reversal::reversible_all(start, step_commands(s))
            &&& now.track(s.track) is Some
            &&& now.track(s.track).unwrap().blocks == b.insert(place(b, s.anchor), s.block)
            &&& 0 <= place(b, s.anchor) <= b.len()
            &&& now.connected_output(s.block, OUT_BLOCK@) == s.from
            &&& now.connected_output(s.block, IN_BLOCK@) == s.to
            &&& now.transition(s.block) == Some(
                Transition { core: Block { track: Some(s.track), ..t.core }, ..t },
            )
            &&& forall|id: NodeId|
                id < g.slots.len() && id != s.track ==> #[trigger] now.node(id) == g.node(id)
        }),
{
    let start = g.appended(crate::transitions::transition_node(t));
    let b = g.track(s.track).unwrap().blocks;
    lemma_transition_node(t);
    assert(start.node(s.track) == g.node(s.track));
    assert(start.node(s.block) == Some(crate::transitions::transition_node(t)));
    if b.contains(s.block) {
        let i = choose|i: int| 0 <= i < b.len() && b[i] == s.block;
        assert(b[i] < g.slots.len());
    }
    lemma_step(start, s);
    if let Some(a) = s.anchor {
        crate::list::lemma_position(b, a);
    }
    let now = after_step(start, s);
    assert(now.node(s.block) == Some(entered_node(start.node(s.block).unwrap(), s)));
    lemma_wired(entered_node(start.node(s.block).unwrap(), s), s.from, s.to);
    assert forall|id: NodeId| id < g.slots.len() && id != s.track implies #[trigger] now.node(id)
        == g.node(id) by {
        assert(start.node(id) == g.node(id));
    }
}

proof fn lemma_inserted_position(b: Seq<NodeId>, p: int, block: NodeId, x: NodeId, i: int)
    requires
        b.no_duplicates(),
        !b.contains(block),
        0 <= p <= b.len(),
        0 <= i < b.len(),
        b[i] == x,
    ensures
        crate::list::position_of(b.insert(p, block), x) == Some(
            if i < p {
                i
            } else {
                i + 1
            },
        ),
{
    let f = b.insert(p, block);
    let at = if i < p {
        i
    } else {
        i + 1
    };
    crate::list::lemma_position(f, x);
    assert(f[at] == x);
    assert(f.contains(x));
    let k = crate::list::position_of(f, x).unwrap();
    if k < p {
        assert(f[k] == b[k]);
    } else if k > p {
        assert(f[k] == b[k - 1]);
    } else {
        assert(b.contains(x));
    }
}

/// Whether `now` is `blocks` with `x` put in, right behind `prev` and right
/// before `next`, where they are given.
pub open spec fn between(
    blocks: Seq<NodeId>,
    now: Seq<NodeId>,
    x: NodeId,
    prev: Option<NodeId>,
    next: Option<NodeId>,
) -> bool {
    exists|p: int| #[trigger]
        at_gap(blocks, p, prev, next) && now == blocks.insert(p, x)
}

/// Whether the gap before index `p` lies behind `prev` and before `next`,
/// where they are given.
pub open spec fn at_gap(
    blocks: Seq<NodeId>,
    p: int,
    prev: Option<NodeId>,
    next: Option<NodeId>,
) -> bool {
    &&& 0 <= p <= blocks.len()
    &&& prev matches Some(a) ==> p > 0 && blocks[p - 1] == a
    &&& next matches Some(c) ==> p < blocks.len() && blocks[p] == c
}

/// Adding a transition at a seam can be taken back; with it in place it
/// stands right between its two clips, fed by the one before and the one
/// behind, both clips carry it on the edge that faces the other, and the seam
/// takes no second one. Nothing else changes.
pub proof fn lemma_seam_transition(
    g: crate::graph::GraphModel,
    prev: NodeId,
    next: NodeId,
    half: Rational,
)
    requires
        g.slots.len() < u64::MAX,
        crate::transitions::seam_plan(g, prev, next, half) is Ok,
        listed_once(g, crate::transitions::seam_plan(g, prev, next, half).unwrap().track),
    ensures
        ({
            let plan = crate::transitions::seam_plan(g, prev, next, half).unwrap();
            let id = g.next_id();
            let commands = crate::transitions::seam_commands(plan, id, prev, next);
            let start = g.appended(crate::transitions::transition_node(plan.transition));
            let now = start.redone_all(commands);
            &&& crate::reversal::reversible_all(start, commands)
            &&& now.edge_transition(prev, false) == Some(id)
            &&& now.edge_transition(next, true) == Some(id)
            &&& crate::transitions::seam_plan(now, prev, next, half) is Err
            &&& now.connected_output(id, OUT_BLOCK@) == Some(prev)
            &&& now.connected_output(id, IN_BLOCK@) == Some(next)
            &&& now.transition(id) == Some(
                Transition {
                    core: Block { track: Some(plan.track), ..plan.transition.core },
                    ..plan.transition
                },
            )
            &&& between(
                g.track(plan.track).unwrap().blocks,
                now.track(plan.track).unwrap().blocks,
                id,
                Some(prev),
                Some(next),
            )
            &&& forall|other: NodeId|
                other < g.slots.len() && other != plan.track ==> #[trigger] now.node(other)
                    == g.node(other)
        }),
{
    let plan = crate::transitions::seam_plan(g, prev, next, half).unwrap();
    let id = g.next_id();
    let s = seam_step(plan, id, prev, next);
    let b = g.track(plan.track).unwrap().blocks;
    crate::list::lemma_position(b, prev);
    let i = crate::list::position_of(b, prev).unwrap();
    lemma_entered_transition(g, plan.transition, s);
    assert(crate::transitions::seam_commands(plan, id, prev, next) =~= step_commands(s));
    let start = g.appended(crate::transitions::transition_node(plan.transition));
    let now = start.redone_all(step_commands(s));
    assert(now.node(prev) == g.node(prev));
    assert(now.node(next) == g.node(next));
    assert(!b.contains(id)) by {
        if b.contains(id) {
            let k = choose|k: int| 0 <= k < b.len() && b[k] == id;
            assert(b[k] < g.slots.len());
        }
    }
    lemma_inserted_position(b, i + 1, id, prev, i);
    lemma_inserted_position(b, i + 1, id, next, i + 1);
    let f = b.insert(i + 1, id);
    assert(now.track(plan.track).unwrap().blocks == f);
    assert(at_gap(b, i + 1, Some(prev), Some(next)));
    assert(f[i + 1] == id);
}

/// Adding a single-sided transition can be taken back; with it in place it
/// stands right before or behind the clip and is fed by it alone, and the clip
/// carries it on that edge, which takes no second one. Nothing else changes.
pub proof fn lemma_edge_transition(
    g: crate::graph::GraphModel,
    clip: NodeId,
    start_edge: bool,
    length: Rational,
)
    requires
        g.slots.len() < u64::MAX,
        crate::transitions::edge_plan(g, clip, start_edge, length) is Ok,
        listed_once(g, crate::transitions::edge_plan(g, clip, start_edge, length).unwrap().track),
    ensures
        ({
            let plan = crate::transitions::edge_plan(g, clip, start_edge, length).unwrap();
            let id = g.next_id();
            let commands = crate::transitions::edge_commands(plan, id, clip, start_edge);
            let start = g.appended(crate::transitions::transition_node(plan.transition));
            let now = start.redone_all(commands);
            &&& crate::reversal::reversible_all(start, commands)
            &&& now.edge_transition(clip, start_edge) == Some(id)
            &&& crate::transitions::edge_plan(now, clip, start_edge, length) == Err::<
                crate::transitions::TransitionPlan,
                crate::errors::EditError,
            >(crate::errors::EditError::EdgeTaken)
            &&& now.connected_output(id, IN_BLOCK@) == (if start_edge {
                Some(clip)
            } else {
                None
            })
            &&& now.connected_output(id, OUT_BLOCK@) == (if start_edge {
                None
            } else {
                Some(clip)
            })
            &&& now.transition(id) == Some(
                Transition {
                    core: Block { track: Some(plan.track), ..plan.transition.core },
                    ..plan.transition
                },
            )
            &&& between(
                g.track(plan.track).unwrap().blocks,
                now.track(plan.track).unwrap().blocks,
                id,
                if start_edge {
                    None
                } else {
                    Some(clip)
                },
                if start_edge {
                    Some(clip)
                } else {
                    None
                },
            )
            &&& forall|other: NodeId|
                other < g.slots.len() && other != plan.track ==> #[trigger] now.node(other)
                    == g.node(other)
        }),
{
    let plan = crate::transitions::edge_plan(g, clip, start_edge, length).unwrap();
    let id = g.next_id();
    let s = edge_step(plan, id, clip, start_edge);
    let b = g.track(plan.track).unwrap().blocks;
    crate::list::lemma_position(b, clip);
    let i = crate::list::position_of(b, clip).unwrap();
    if start_edge && i > 0 {
        assert(b.contains(b[i - 1]));
        crate::list::lemma_position(b, b[i - 1]);
    }
    lemma_entered_transition(g, plan.transition, s);
    assert(crate::transitions::edge_commands(plan, id, clip, start_edge) =~= step_commands(s));
    let start = g.appended(crate::transitions::transition_node(plan.transition));
    let now = start.redone_all(step_commands(s));
    assert(now.node(clip) == g.node(clip));
    assert(!b.contains(id)) by {
        if b.contains(id) {
            let k = choose|k: int| 0 <= k < b.len() && b[k] == id;
            assert(b[k] < g.slots.len());
        }
    }
    let p = if start_edge {
        i
    } else {
        i + 1
    };
    assert(place(b, s.anchor) == p);
    lemma_inserted_position(b, p, id, clip, i);
    assert(b.insert(p, id)[p] == id);
    assert(at_gap(
        b,
        p,
        if start_edge {
            None
        } else {
            Some(clip)
        },
        if start_edge {
            Some(clip)
        } else {
            None
        },
    ));
}

} // verus!
