//! The default transition over a selection of clips.

use crate::commands::{Command, Edit, Port};
use crate::errors::EditError;
use crate::graph::{Graph, NodeId, IN_BLOCK, OUT_BLOCK};
use crate::list::{contains, copy_of, position};
use crate::queries::{clip_behavior, clip_track, sequence_behavior, track_behavior};
use crate::rational::Rational;
use crate::transitions::{new_transition, plan_edge, plan_seam};
use vstd::prelude::*;

verus! {

/// Where the clip at `clip` stands: its track's blocks and its index among
/// them, when it is a clip on a track of one of `lists`.
pub open spec fn standing(
    g: crate::graph::GraphModel,
    lists: Seq<NodeId>,
    clip: NodeId,
) -> Option<(Seq<NodeId>, int)> {
    match g.track_of(clip) {
        None => None,
        Some(track) => match g.list_of(track) {
            None => None,
            Some(list) => if !lists.contains(list) {
                None
            } else {
                match crate::list::position_of(g.track(track).unwrap().blocks, clip) {
                    None => None,
                    Some(i) => if g.clip(clip) is None {
                        None
                    } else {
                        Some((g.track(track).unwrap().blocks, i))
                    },
                }
            },
        },
    }
}

/// Whether `prev` and `next` are clips that touch.
pub open spec fn touching(g: crate::graph::GraphModel, prev: NodeId, next: NodeId) -> bool {
    &&& g.clip(prev) is Some
    &&& g.clip(next) is Some
    &&& crate::rational::same_time(
        g.clip(prev).unwrap().out_point,
        g.clip(next).unwrap().in_point,
    )
}

/// Whether the block before index `i` touches the one at `i`.
pub open spec fn seam_before(g: crate::graph::GraphModel, blocks: Seq<NodeId>, i: int) -> bool {
    i > 0 && touching(g, blocks[i - 1], blocks[i])
}

/// Whether the block at index `i` touches the one behind it.
pub open spec fn seam_behind(g: crate::graph::GraphModel, blocks: Seq<NodeId>, i: int) -> bool {
    i + 1 < blocks.len() && touching(g, blocks[i], blocks[i + 1])
}

/// Whether `block` is wired to `clip` on either side, as a transition is.
pub open spec fn wired_to(g: crate::graph::GraphModel, block: NodeId, clip: NodeId) -> bool {
    g.connected_output(block, OUT_BLOCK@) == Some(clip) || g.connected_output(block, IN_BLOCK@)
        == Some(clip)
}

/// Whether one of `blocks` is wired to `clip`.
pub open spec fn wired_among(
    g: crate::graph::GraphModel,
    blocks: Seq<NodeId>,
    clip: NodeId,
) -> bool {
    exists|i: int| 0 <= i < blocks.len() && wired_to(g, #[trigger] blocks[i], clip)
}

/// What a selection asks for: the seams around its clips, each once, and
/// both edges of every lone clip, one that has no seam and that no
/// transition of its track is wired to.
pub struct Wanted {
    pub seams: Seq<(NodeId, NodeId)>,
    pub lone: Seq<NodeId>,
}

/// Both edges of every clip: the heads before the tails, so that on a track
/// without gaps a tail stays next to its clip.
pub open spec fn edges_of(lone: Seq<NodeId>) -> Seq<(NodeId, bool)> {
    lone.map_values(|clip: NodeId| (clip, true)) + lone.map_values(|clip: NodeId| (clip, false))
}

impl Wanted {
    /// The edges asked for.
    pub open spec fn edges(self) -> Seq<(NodeId, bool)> {
        edges_of(self.lone)
    }
}

/// `seams` with `seam` added, unless it is there.
pub open spec fn with_seam(
    seams: Seq<(NodeId, NodeId)>,
    seam: (NodeId, NodeId),
) -> Seq<(NodeId, NodeId)> {
    if seams.contains(seam) {
        seams
    } else {
        seams.push(seam)
    }
}

/// What `clip` adds to what the clips before it ask for.
pub open spec fn with_clip(
    g: crate::graph::GraphModel,
    lists: Seq<NodeId>,
    clip: NodeId,
    w: Wanted,
) -> Wanted {
    match standing(g, lists, clip) {
        None => w,
        Some((blocks, i)) => {
            let head = seam_before(g, blocks, i);
            let tail = seam_behind(g, blocks, i);
            let first = if head {
                with_seam(w.seams, (blocks[i - 1], clip))
            } else {
                w.seams
            };
            let seams = if tail {
                with_seam(first, (clip, blocks[i + 1]))
            } else {
                first
            };
            Wanted {
                seams,
                lone: if !head && !tail && !wired_among(g, blocks, clip) {
                    w.lone.push(clip)
                } else {
                    w.lone
                },
            }
        },
    }
}

/// What the clips ask for, in order.
pub open spec fn wanted(
    g: crate::graph::GraphModel,
    lists: Seq<NodeId>,
    clips: Seq<NodeId>,
) -> Wanted
    decreases clips.len(),
{
    if clips.len() == 0 {
        Wanted { seams: Seq::empty(), lone: Seq::empty() }
    } else {
        with_clip(g, lists, clips.last(), wanted(g, lists, clips.drop_last()))
    }
}

/// A batch under construction.
pub struct Batch {
    pub graph: crate::graph::GraphModel,
    pub commands: Seq<Command>,
    pub created: nat,
}

/// The batch with the transitions at `seams`; a seam that takes none is
/// skipped.
pub open spec fn with_seams(b: Batch, seams: Seq<(NodeId, NodeId)>, half: Rational) -> Batch
    decreases seams.len(),
{
    if seams.len() == 0 {
        b
    } else {
        let done = with_seams(b, seams.drop_last(), half);
        let (prev, next) = seams.last();
        match crate::transitions::seam_plan(done.graph, prev, next, half) {
            Err(_) => done,
            Ok(plan) => Batch {
                graph: done.graph.appended(crate::transitions::transition_node(plan.transition)),
                commands: done.commands + crate::transitions::seam_commands(
                    plan,
                    done.graph.next_id(),
                    prev,
                    next,
                ),
                created: done.created + 1,
            },
        }
    }
}

/// The batch with the transitions on `edges`; an edge that takes none is
/// skipped.
pub open spec fn with_edges(b: Batch, edges: Seq<(NodeId, bool)>, length: Rational) -> Batch
    decreases edges.len(),
{
    if edges.len() == 0 {
        b
    } else {
        let done = with_edges(b, edges.drop_last(), length);
        let (clip, start_edge) = edges.last();
        match crate::transitions::edge_plan(done.graph, clip, start_edge, length) {
            Err(_) => done,
            Ok(plan) => Batch {
                graph: done.graph.appended(crate::transitions::transition_node(plan.transition)),
                commands: done.commands + crate::transitions::edge_commands(
                    plan,
                    done.graph.next_id(),
                    clip,
                    start_edge,
                ),
                created: done.created + 1,
            },
        }
    }
}

/// The batch for a selection: the seams first, then the edges of the lone
/// clips, which reach twice as far into their clip.
pub open spec fn default_batch(
    g: crate::graph::GraphModel,
    lists: Seq<NodeId>,
    clips: Seq<NodeId>,
    half: Rational,
    length: Rational,
) -> Batch {
    let w = wanted(g, lists, clips);
    with_edges(
        with_seams(Batch { graph: g, commands: Seq::empty(), created: 0 }, w.seams, half),
        w.edges(),
        length,
    )
}

fn has_seam(seams: &Vec<(NodeId, NodeId)>, a: NodeId, b: NodeId) -> (r: bool)
    ensures
        r == seams@.contains((a, b)),
{
    let mut i: usize = 0;
    while i < seams.len()
        invariant
            i <= seams.len(),
            forall|j: int| 0 <= j < i ==> seams@[j] != (a, b),
        decreases seams.len() - i,
    {
        if seams[i].0 == a && seams[i].1 == b {
            assert(seams@[i as int] == (a, b));
            return true;
        }
        i = i + 1;
    }
    false
}

fn add_seam(seams: &mut Vec<(NodeId, NodeId)>, a: NodeId, b: NodeId)
    ensures
        final(seams)@ == with_seam(old(seams)@, (a, b)),
{
    if !has_seam(seams, a, b) {
        seams.push((a, b));
    }
}

fn touch(g: &Graph, prev: NodeId, next: NodeId) -> (b: bool)
    ensures
        b == touching(g@, prev, next),
{
    match (clip_behavior(g, prev), clip_behavior(g, next)) {
        (Some(left), Some(right)) => left.out_point.same(right.in_point),
        _ => false,
    }
}

fn is_wired(g: &Graph, blocks: &Vec<NodeId>, clip: NodeId) -> (b: bool)
    ensures
        b == wired_among(g@, blocks@, clip),
{
    let mut i: usize = 0;
    while i < blocks.len()
        invariant
            i <= blocks.len(),
            forall|j: int| 0 <= j < i ==> !wired_to(g@, #[trigger] blocks@[j], clip),
        decreases blocks.len() - i,
    {
        let from: Option<NodeId> = g.connected_output(blocks[i], OUT_BLOCK);
        let to: Option<NodeId> = g.connected_output(blocks[i], IN_BLOCK);
        if from == Some(clip) || to == Some(clip) {
            assert(wired_to(g@, blocks@[i as int], clip));
            return true;
        }
        i = i + 1;
    }
    false
}

fn want_clip(
    g: &Graph,
    lists: &Vec<NodeId>,
    clip: NodeId,
    seams: &mut Vec<(NodeId, NodeId)>,
    lone: &mut Vec<NodeId>,
)
    ensures
        ({
            let w = with_clip(
                g@,
                lists@,
                clip,
                Wanted { seams: old(seams)@, lone: old(lone)@ },
            );
            final(seams)@ == w.seams && final(lone)@ == w.lone
        }),
{
    let track: NodeId = match clip_track(g, clip) {
        Some(track) => track,
        None => return,
    };
    let t = match track_behavior(g, track) {
        Some(t) => t,
        None => return,
    };
    let list: NodeId = match t.track_list {
        Some(list) => list,
        None => return,
    };
    if !contains(lists, list) {
        return;
    }
    let i: usize = match position(&t.blocks, clip) {
        Some(i) => i,
        None => return,
    };
    if clip_behavior(g, clip).is_none() {
        return;
    }
    let head: bool = i > 0 && touch(g, t.blocks[i - 1], clip);
    let tail: bool = i + 1 < t.blocks.len() && touch(g, clip, t.blocks[i + 1]);
    if head {
        add_seam(seams, t.blocks[i - 1], clip);
    }
    if tail {
        add_seam(seams, clip, t.blocks[i + 1]);
    }
    if !head && !tail && !is_wired(g, &t.blocks, clip) {
        lone.push(clip);
    }
}

fn both_edges(lone: &Vec<NodeId>) -> (r: Vec<(NodeId, bool)>)
    ensures
        r@ == edges_of(lone@),
{
    let mut edges: Vec<(NodeId, bool)> = Vec::new();
    let ghost heads = lone@.map_values(|clip: NodeId| (clip, true));
    let ghost tails = lone@.map_values(|clip: NodeId| (clip, false));
    let mut i: usize = 0;
    while i < lone.len()
        invariant
            i <= lone.len(),
            heads == lone@.map_values(|clip: NodeId| (clip, true)),
            edges@ == heads.take(i as int),
        decreases lone.len() - i,
    {
        edges.push((lone[i], true));
        assert(edges@ =~= heads.take(i + 1));
        i = i + 1;
    }
    let mut i: usize = 0;
    assert(edges@ =~= heads + tails.take(0));
    while i < lone.len()
        invariant
            i <= lone.len(),
            tails == lone@.map_values(|clip: NodeId| (clip, false)),
            edges@ == heads + tails.take(i as int),
        decreases lone.len() - i,
    {
        edges.push((lone[i], false));
        assert(edges@ =~= heads + tails.take(i + 1));
        i = i + 1;
    }
    assert(tails.take(i as int) =~= tails);
    edges
}

/// Adds a default transition at every seam around the selected clips, and at
/// both ends of every clip that touches no other and that no transition of
/// its track is wired to.
///
/// `half` is half of the default length: a seam transition spans it to either
/// side, a single-sided one spans twice as much into its clip. Clips outside
/// the lists of `seq` are ignored, and a seam or edge that takes no
/// transition is skipped. The whole batch is one "Add Transition" row; a
/// batch that builds nothing is an error. Returns the number of transitions.
pub fn add_default_transition(
    g: &mut Graph,
    seq: NodeId,
    clip_blocks: &Vec<NodeId>,
    half: Rational,
) -> (r: Result<(usize, Edit), EditError>)
    ensures
        match old(g)@.sequence(seq) {
            None => r == Err::<(usize, Edit), EditError>(EditError::NoSequence) && final(g)@
                == old(g)@,
            Some(s) => match crate::rational::sum_of(half, half) {
                None => r == Err::<(usize, Edit), EditError>(EditError::TimeOutOfRange)
                    && final(g)@ == old(g)@,
                Some(length) => {
                    let batch = default_batch(
                        old(g)@,
                        s.track_lists,
                        clip_blocks@,
                        half,
                        length,
                    );
                    if batch.created == 0 {
                        r == Err::<(usize, Edit), EditError>(EditError::NothingToBuild)
                            && final(g)@ == old(g)@
                    } else {
                        &&& r is Ok
                        &&& r.unwrap().0 == batch.created
                        &&& final(g)@ == batch.graph
                        &&& r.unwrap().1.name@ == "Add Transition"@
                        &&& r.unwrap().1.commands@ == batch.commands
                    }
                },
            },
        },
{
    let ghost start = g@;
    let lists: Vec<NodeId> = match sequence_behavior(g, seq) {
        Some(s) => copy_of(&s.track_lists),
        None => return Err(EditError::NoSequence),
    };
    let length: Rational = match half.checked_add(half) {
        Some(length) => length,
        None => return Err(EditError::TimeOutOfRange),
    };
    let mut seams: Vec<(NodeId, NodeId)> = Vec::new();
    let mut lone: Vec<NodeId> = Vec::new();
    let mut i: usize = 0;
    while i < clip_blocks.len()
        invariant
            i <= clip_blocks.len(),
            seams@ == wanted(g@, lists@, clip_blocks@.take(i as int)).seams,
            lone@ == wanted(g@, lists@, clip_blocks@.take(i as int)).lone,
        decreases clip_blocks.len() - i,
    {
        proof {
            assert(clip_blocks@.take(i + 1).drop_last() == clip_blocks@.take(i as int));
        }
        want_clip(g, &lists, clip_blocks[i], &mut seams, &mut lone);
        i = i + 1;
    }
    assert(clip_blocks@.take(i as int) == clip_blocks@);
    let edges: Vec<(NodeId, bool)> = both_edges(&lone);

    let mut commands: Vec<Command> = Vec::new();
    let mut created: usize = 0;
    let ghost first = Batch { graph: start, commands: Seq::empty(), created: 0 };
    let mut i: usize = 0;
    while i < seams.len()
        invariant
            i <= seams.len(),
            g@ == with_seams(first, seams@.take(i as int), half).graph,
            commands@ == with_seams(first, seams@.take(i as int), half).commands,
            created == with_seams(first, seams@.take(i as int), half).created,
            commands.len() >= 2 * created,
            created == 0 ==> g@ == start,
        decreases seams.len() - i,
    {
        proof {
            assert(seams@.take(i + 1).drop_last() == seams@.take(i as int));
        }
        let (prev, next) = seams[i];
        if let Ok(plan) = plan_seam(g, prev, next, half) {
            let block: NodeId = new_transition(g, plan.transition);
            let ghost before = commands@;
            commands.push(
                Command::InsertAfter { track: plan.track, block, anchor: plan.anchor },
            );
            commands.push(Command::Connect { from: prev, to: block, port: Port::OutBlock });
            commands.push(Command::Connect { from: next, to: block, port: Port::InBlock });
            assert(commands@ =~= before + crate::transitions::seam_commands(
                plan,
                block,
                prev,
                next,
            ));
            created = created + 1;
        }
        i = i + 1;
    }
    assert(seams@.take(i as int) == seams@);
    let ghost second = with_seams(first, seams@, half);
    let mut i: usize = 0;
    while i < edges.len()
        invariant
            i <= edges.len(),
            g@ == with_edges(second, edges@.take(i as int), length).graph,
            commands@ == with_edges(second, edges@.take(i as int), length).commands,
            created == with_edges(second, edges@.take(i as int), length).created,
            commands.len() >= 2 * created,
            created == 0 ==> g@ == start,
        decreases edges.len() - i,
    {
        proof {
            assert(edges@.take(i + 1).drop_last() == edges@.take(i as int));
        }
        let (clip, start_edge) = edges[i];
        if let Ok(plan) = plan_edge(g, clip, start_edge, length) {
            let block: NodeId = new_transition(g, plan.transition);
            let ghost before = commands@;
            commands.push(
                Command::InsertAfter { track: plan.track, block, anchor: plan.anchor },
            );
            let port: Port = if start_edge {
                Port::InBlock
            } else {
                Port::OutBlock
            };
            commands.push(Command::Connect { from: clip, to: block, port });
            assert(commands@ =~= before + crate::transitions::edge_commands(
                plan,
                block,
                clip,
                start_edge,
            ));
            created = created + 1;
        }
        i = i + 1;
    }
    assert(edges@.take(i as int) == edges@);
    if created == 0 {
        return Err(EditError::NothingToBuild);
    }
    Ok((created, Edit { name: "Add Transition", commands }))
}

} // verus!
