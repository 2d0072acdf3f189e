//! Transitions: at the seam of two clips, and on the free edges of one.

use crate::commands::{Command, Edit, Port};
use crate::errors::EditError;
use crate::graph::{
    Behavior, Block, Graph, Node, NodeId, Transition, IN_BLOCK, OUT_BLOCK,
};
use crate::list::position;
use crate::queries::{clip_behavior, clip_track, track_behavior, transition_behavior};
use crate::rational::Rational;
use vstd::prelude::*;

verus! {

/// The type of transition nodes.
pub const TRANSITION_TYPE_ID: &'static str = "org.olivevideoeditor.Olive.transition";

/// The bit pattern of playback at normal speed.
pub const NORMAL_SPEED_BITS: u64 = 0x3ff0_0000_0000_0000;

/// Whether `t` lies after the origin.
pub open spec fn positive(t: Rational) -> bool {
    crate::rational::before(Rational { num: 0, den: 1 }, t)
}

/// Whether `b` is a transition fed by `prev` and `next`.
pub open spec fn joins(
    g: crate::graph::GraphModel,
    b: NodeId,
    prev: NodeId,
    next: NodeId,
) -> bool {
    &&& g.transition(b) is Some
    &&& g.connected_output(b, OUT_BLOCK@) == Some(prev)
    &&& g.connected_output(b, IN_BLOCK@) == Some(next)
}

/// Whether a transition between `prev` and `next` stands among `blocks`.
pub open spec fn joined_among(
    g: crate::graph::GraphModel,
    blocks: Seq<NodeId>,
    prev: NodeId,
    next: NodeId,
) -> bool {
    exists|i: int| 0 <= i < blocks.len() && joins(g, #[trigger] blocks[i], prev, next)
}

/// Whether `next` is listed right behind the first occurrence of `prev`.
pub open spec fn adjacent(blocks: Seq<NodeId>, prev: NodeId, next: NodeId) -> bool {
    match crate::list::position_of(blocks, prev) {
        Some(i) => i + 1 < blocks.len() && blocks[i + 1] == next,
        None => false,
    }
}

/// A transition about to be built.
#[derive(Clone, Copy, Debug)]
pub struct TransitionPlan {
    pub track: NodeId,
    pub anchor: Option<NodeId>,
    pub transition: Transition,
}

/// The extent of a block that is on no track yet.
pub open spec fn loose_block(in_point: Rational, out_point: Rational) -> Block {
    Block {
        in_point,
        out_point,
        media_in: Rational { num: 0, den: 1 },
        track: None,
        speed_bits: NORMAL_SPEED_BITS,
    }
}

/// The transition at the seam of `prev` and `next`: `half` to either side.
pub open spec fn seam_plan(
    g: crate::graph::GraphModel,
    prev: NodeId,
    next: NodeId,
    half: Rational,
) -> Result<TransitionPlan, EditError> {
    if !positive(half) {
        Err(EditError::TransitionLength)
    } else if g.clip(prev) is None {
        Err(EditError::OutgoingNotAClip)
    } else if g.clip(next) is None {
        Err(EditError::IncomingNotAClip)
    } else {
        let left = g.clip(prev).unwrap();
        let right = g.clip(next).unwrap();
        if !crate::rational::same_time(right.in_point, left.out_point) {
            Err(EditError::NotContiguous)
        } else {
            match left.track {
                None => Err(EditError::OutgoingNotOnTrack),
                Some(track) => if right.track != Some(track) {
                    Err(EditError::DifferentTracks)
                } else {
                    match g.track(track) {
                        None => Err(EditError::TransitionTrack),
                        Some(t) => if !adjacent(t.blocks, prev, next) {
                            Err(EditError::NotAdjacent)
                        } else if joined_among(g, t.blocks, prev, next) {
                            Err(EditError::SeamTaken)
                        } else {
                            match (
                                crate::rational::difference_of(left.out_point, half),
                                crate::rational::sum_of(left.out_point, half),
                            ) {
                                (Some(from), Some(to)) => Ok(
                                    TransitionPlan {
                                        track,
                                        anchor: Some(prev),
                                        transition: Transition {
                                            core: loose_block(from, to),
                                            in_offset: half,
                                            out_offset: half,
                                        },
                                    },
                                ),
                                _ => Err(EditError::TimeOutOfRange),
                            }
                        },
                    }
                },
            }
        }
    }
}

impl crate::graph::GraphModel {
    /// The transition drawn on one edge of the clip at `clip`: its neighbour
    /// on that side, when the clip feeds the facing input of it.
    pub open spec fn edge_transition(self, clip: NodeId, start_edge: bool) -> Option<NodeId> {
        match self.track_of(clip) {
            None => None,
            Some(track) => match self.track(track) {
                None => None,
                Some(t) => match crate::list::position_of(t.blocks, clip) {
                    None => None,
                    Some(i) => {
                        let at = if start_edge {
                            i - 1
                        } else {
                            i + 1
                        };
                        let input = if start_edge {
                            IN_BLOCK@
                        } else {
                            OUT_BLOCK@
                        };
                        if 0 <= at < t.blocks.len() && self.connected_output(t.blocks[at], input)
                            == Some(clip) {
                            Some(t.blocks[at])
                        } else {
                            None
                        }
                    },
                },
            },
        }
    }
}

/// The single-sided transition on one edge of `clip`, `length` into it.
pub open spec fn edge_plan(
    g: crate::graph::GraphModel,
    clip: NodeId,
    start_edge: bool,
    length: Rational,
) -> Result<TransitionPlan, EditError> {
    if !positive(length) {
        Err(EditError::TransitionLength)
    } else if g.clip(clip) is None {
        Err(EditError::EdgeNotAClip)
    } else {
        let core = g.clip(clip).unwrap();
        match core.track {
            None => Err(EditError::EdgeNotOnTrack),
            Some(track) => match g.track(track) {
                None => Err(EditError::TransitionTrack),
                Some(t) => match crate::list::position_of(t.blocks, clip) {
                    None => Err(EditError::EdgeNotListed),
                    Some(i) => if g.edge_transition(clip, start_edge) is Some {
                        Err(EditError::EdgeTaken)
                    } else if start_edge {
                        match crate::rational::sum_of(core.in_point, length) {
                            None => Err(EditError::TimeOutOfRange),
                            Some(to) => Ok(
                                TransitionPlan {
                                    track,
                                    anchor: if i > 0 {
                                        Some(t.blocks[i - 1])
                                    } else {
                                        None
                                    },
                                    transition: Transition {
                                        core: loose_block(core.in_point, to),
                                        in_offset: Rational { num: 0, den: 1 },
                                        out_offset: length,
                                    },
                                },
                            ),
                        }
                    } else {
                        match crate::rational::difference_of(core.out_point, length) {
                            None => Err(EditError::TimeOutOfRange),
                            Some(from) => Ok(
                                TransitionPlan {
                                    track,
                                    anchor: Some(clip),
                                    transition: Transition {
                                        core: loose_block(from, core.out_point),
                                        in_offset: length,
                                        out_offset: Rational { num: 0, den: 1 },
                                    },
                                },
                            ),
                        }
                    },
                },
            },
        }
    }
}

/// A transition node, wired to nothing.
pub open spec fn transition_node(transition: Transition) -> crate::graph::NodeModel {
    crate::graph::with_input(
        crate::graph::with_input(
            crate::graph::new_node(
                TRANSITION_TYPE_ID@,
                crate::graph::BehaviorModel::Transition(transition),
            ),
            OUT_BLOCK@,
        ),
        IN_BLOCK@,
    )
}

/// The commands that enter the seam transition `block` and wire both sides.
pub open spec fn seam_commands(
    plan: TransitionPlan,
    block: NodeId,
    prev: NodeId,
    next: NodeId,
) -> Seq<Command> {
    seq![
        Command::InsertAfter { track: plan.track, block, anchor: plan.anchor },
        Command::Connect { from: prev, to: block, port: Port::OutBlock },
        Command::Connect { from: next, to: block, port: Port::InBlock },
    ]
}

/// The commands that enter the edge transition `block` and wire the clip.
pub open spec fn edge_commands(
    plan: TransitionPlan,
    block: NodeId,
    clip: NodeId,
    start_edge: bool,
) -> Seq<Command> {
    seq![
        Command::InsertAfter { track: plan.track, block, anchor: plan.anchor },
        Command::Connect {
            from: clip,
            to: block,
            port: if start_edge {
                Port::InBlock
            } else {
                Port::OutBlock
            },
        },
    ]
}

pub(crate) fn new_transition(g: &mut Graph, transition: Transition) -> (id: NodeId)
    ensures
        id == old(g)@.next_id(),
        id == old(g)@.slots.len(),
        final(g)@ == old(g)@.appended(transition_node(transition)),
{
    let mut node: Node = Node::new(TRANSITION_TYPE_ID, Behavior::Transition(transition));
    node.add_input(OUT_BLOCK);
    node.add_input(IN_BLOCK);
    g.add_node(node)
}

fn is_joined(g: &Graph, blocks: &Vec<NodeId>, prev: NodeId, next: NodeId) -> (b: bool)
    ensures
        b == joined_among(g@, blocks@, prev, next),
{
    let mut i: usize = 0;
    while i < blocks.len()
        invariant
            i <= blocks.len(),
            forall|j: int| 0 <= j < i ==> !joins(g@, #[trigger] blocks@[j], prev, next),
        decreases blocks.len() - i,
    {
        let b: NodeId = blocks[i];
        if transition_behavior(g, b).is_some() {
            let from: Option<NodeId> = g.connected_output(b, OUT_BLOCK);
            let to: Option<NodeId> = g.connected_output(b, IN_BLOCK);
            if let (Some(p), Some(n)) = (from, to) {
                if p == prev && n == next {
                    assert(joins(g@, blocks@[i as int], prev, next));
                    return true;
                }
            }
        }
        i = i + 1;
    }
    false
}

fn is_positive(t: Rational) -> (b: bool)
    ensures
        b == positive(t),
{
    Rational::zero().is_before(t)
}

fn loose(in_point: Rational, out_point: Rational) -> (b: Block)
    ensures
        b == loose_block(in_point, out_point),
{
    Block {
        in_point,
        out_point,
        media_in: Rational::zero(),
        track: None,
        speed_bits: NORMAL_SPEED_BITS,
    }
}

pub(crate) fn plan_seam(g: &Graph, prev: NodeId, next: NodeId, half: Rational) -> (r: Result<
    TransitionPlan,
    EditError,
>)
    ensures
        r == seam_plan(g@, prev, next, half),
{
    if !is_positive(half) {
        return Err(EditError::TransitionLength);
    }
    let left: Block = match clip_behavior(g, prev) {
        Some(core) => core,
        None => return Err(EditError::OutgoingNotAClip),
    };
    let right: Block = match clip_behavior(g, next) {
        Some(core) => core,
        None => return Err(EditError::IncomingNotAClip),
    };
    if !right.in_point.same(left.out_point) {
        return Err(EditError::NotContiguous);
    }
    let track: NodeId = match left.track {
        Some(track) => track,
        None => return Err(EditError::OutgoingNotOnTrack),
    };
    match right.track {
        Some(other) => {
            if other != track {
                return Err(EditError::DifferentTracks);
            }
        },
        None => return Err(EditError::DifferentTracks),
    }
    let t = match track_behavior(g, track) {
        Some(t) => t,
        None => return Err(EditError::TransitionTrack),
    };
    let listed: bool = match position(&t.blocks, prev) {
        Some(i) => i + 1 < t.blocks.len() && t.blocks[i + 1] == next,
        None => false,
    };
    if !listed {
        return Err(EditError::NotAdjacent);
    }
    if is_joined(g, &t.blocks, prev, next) {
        return Err(EditError::SeamTaken);
    }
    match (left.out_point.checked_sub(half), left.out_point.checked_add(half)) {
        (Some(from), Some(to)) => Ok(
            TransitionPlan {
                track,
                anchor: Some(prev),
                transition: Transition {
                    core: loose(from, to),
                    in_offset: half,
                    out_offset: half,
                },
            },
        ),
        _ => Err(EditError::TimeOutOfRange),
    }
}

/// The transition drawn on one edge of `clip`: the start edge belongs to the
/// transition before the clip, the end edge to the one after it.
pub fn transition_of_clip(g: &Graph, clip: NodeId, start_edge: bool) -> (r: Option<NodeId>)
    ensures
        r == g@.edge_transition(clip, start_edge),
{
    let track: NodeId = match clip_track(g, clip) {
        Some(track) => track,
        None => return None,
    };
    let t = match track_behavior(g, track) {
        Some(t) => t,
        None => return None,
    };
    let i: usize = match position(&t.blocks, clip) {
        Some(i) => i,
        None => return None,
    };
    let at: usize = if start_edge {
        if i == 0 {
            return None;
        }
        i - 1
    } else {
        if i + 1 >= t.blocks.len() {
            return None;
        }
        i + 1
    };
    let input: &'static str = if start_edge {
        IN_BLOCK
    } else {
        OUT_BLOCK
    };
    let candidate: NodeId = t.blocks[at];
    match g.connected_output(candidate, input) {
        Some(source) => {
            if source == clip {
                Some(candidate)
            } else {
                None
            }
        },
        None => None,
    }
}

pub(crate) fn plan_edge(g: &Graph, clip: NodeId, start_edge: bool, length: Rational) -> (r: Result<
    TransitionPlan,
    EditError,
>)
    ensures
        r == edge_plan(g@, clip, start_edge, length),
{
    if !is_positive(length) {
        return Err(EditError::TransitionLength);
    }
    let core: Block = match clip_behavior(g, clip) {
        Some(core) => core,
        None => return Err(EditError::EdgeNotAClip),
    };
    let track: NodeId = match core.track {
        Some(track) => track,
        None => return Err(EditError::EdgeNotOnTrack),
    };
    let t = match track_behavior(g, track) {
        Some(t) => t,
        None => return Err(EditError::TransitionTrack),
    };
    let i: usize = match position(&t.blocks, clip) {
        Some(i) => i,
        None => return Err(EditError::EdgeNotListed),
    };
    if transition_of_clip(g, clip, start_edge).is_some() {
        return Err(EditError::EdgeTaken);
    }
    if start_edge {
        match core.in_point.checked_add(length) {
            None => Err(EditError::TimeOutOfRange),
            Some(to) => Ok(
                TransitionPlan {
                    track,
                    anchor: if i > 0 {
                        Some(t.blocks[i - 1])
                    } else {
                        None
                    },
                    transition: Transition {
                        core: loose(core.in_point, to),
                        in_offset: Rational::zero(),
                        out_offset: length,
                    },
                },
            ),
        }
    } else {
        match core.out_point.checked_sub(length) {
            None => Err(EditError::TimeOutOfRange),
            Some(from) => Ok(
                TransitionPlan {
                    track,
                    anchor: Some(clip),
                    transition: Transition {
                        core: loose(from, core.out_point),
                        in_offset: length,
                        out_offset: Rational::zero(),
                    },
                },
            ),
        }
    }
}

/// Creates a transition at the seam between two contiguous clips, as one
/// "Add Transition" row. Everything is validated before the block is
/// created, so a refused seam leaves the graph untouched.
pub fn add_transition_at_seam(g: &mut Graph, prev: NodeId, next: NodeId, half: Rational) -> (r:
    Result<(NodeId, Edit), EditError>)
    ensures
        match seam_plan(old(g)@, prev, next, half) {
            Err(e) => r == Err::<(NodeId, Edit), EditError>(e) && final(g)@ == old(g)@,
            Ok(plan) => {
                &&& r is Ok
                &&& r.unwrap().0 == old(g)@.next_id()
                &&& final(g)@ == old(g)@.appended(transition_node(plan.transition))
                &&& r.unwrap().1.name@ == "Add Transition"@
                &&& r.unwrap().1.commands@ == seam_commands(plan, r.unwrap().0, prev, next)
            },
        },
{
    match plan_seam(g, prev, next, half) {
        Err(e) => Err(e),
        Ok(plan) => {
            let block: NodeId = new_transition(g, plan.transition);
            let mut commands: Vec<Command> = Vec::new();
            commands.push(
                Command::InsertAfter { track: plan.track, block, anchor: plan.anchor },
            );
            commands.push(Command::Connect { from: prev, to: block, port: Port::OutBlock });
            commands.push(Command::Connect { from: next, to: block, port: Port::InBlock });
            assert(commands@ =~= seam_commands(plan, block, prev, next));
            Ok((block, Edit { name: "Add Transition", commands }))
        },
    }
}

/// Creates a single-sided transition on one edge of `clip`: a fade-in on its
/// head, a fade-out on its tail. Only the clip itself is wired.
pub fn add_transition_at_edge(
    g: &mut Graph,
    clip: NodeId,
    start_edge: bool,
    length: Rational,
) -> (r: Result<(NodeId, Edit), EditError>)
    ensures
        match edge_plan(old(g)@, clip, start_edge, length) {
            Err(e) => r == Err::<(NodeId, Edit), EditError>(e) && final(g)@ == old(g)@,
            Ok(plan) => {
                &&& r is Ok
                &&& r.unwrap().0 == old(g)@.next_id()
                &&& final(g)@ == old(g)@.appended(transition_node(plan.transition))
                &&& r.unwrap().1.name@ == "Add Transition"@
                &&& r.unwrap().1.commands@ == edge_commands(plan, r.unwrap().0, clip, start_edge)
            },
        },
{
    match plan_edge(g, clip, start_edge, length) {
        Err(e) => Err(e),
        Ok(plan) => {
            let block: NodeId = new_transition(g, plan.transition);
            let mut commands: Vec<Command> = Vec::new();
            commands.push(
                Command::InsertAfter { track: plan.track, block, anchor: plan.anchor },
            );
            let port: Port = if start_edge {
                Port::InBlock
            } else {
                Port::OutBlock
            };
            commands.push(Command::Connect { from: clip, to: block, port });
            assert(commands@ =~= edge_commands(plan, block, clip, start_edge));
            Ok((block, Edit { name: "Add Transition", commands }))
        },
    }
}

} // verus!
