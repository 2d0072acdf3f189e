//! The wedges of transitions: how far each reaches into its clips.

use crate::commands::{Command, Edit};
use crate::errors::EditError;
use crate::graph::{Block, Graph, NodeId, Transition, IN_BLOCK, OUT_BLOCK};
use crate::queries::{block_core_of, is_timeline_clip, track_behavior, transition_behavior};
use crate::rational::Rational;
use crate::transitions::transition_of_clip;
use std::collections::HashMap;
use vstd::prelude::*;

verus! {

/// `transition` with one wedge set to `width`; the seam stays where it is.
/// The start wedge of a clip is the far side of the transition before it.
pub open spec fn with_wedge(
    transition: Transition,
    start_edge: bool,
    width: Rational,
) -> Option<Transition> {
    match crate::rational::sum_of(transition.core.in_point, transition.in_offset) {
        None => None,
        Some(seam) => if start_edge {
            match crate::rational::sum_of(seam, width) {
                None => None,
                Some(to) => Some(
                    Transition {
                        core: Block { out_point: to, ..transition.core },
                        out_offset: width,
                        ..transition
                    },
                ),
            }
        } else {
            match crate::rational::difference_of(seam, width) {
                None => None,
                Some(from) => Some(
                    Transition {
                        core: Block { in_point: from, ..transition.core },
                        in_offset: width,
                        ..transition
                    },
                ),
            }
        },
    }
}

/// The width a wedge request comes to: at least one frame, at most the clip.
pub open spec fn wedge_width(frame: Rational, requested: Rational, clip_length: Rational) -> Rational {
    crate::rational::earlier_of(crate::rational::later_of(requested, frame), clip_length)
}

/// What a wedge request comes to: the width, and the transition rewritten.
/// An attached block that is no transition is left as it is.
pub open spec fn wedge_plan(
    g: crate::graph::GraphModel,
    clip: NodeId,
    start_edge: bool,
    frame: Rational,
    new_length: Rational,
) -> Result<(Rational, Seq<Command>), EditError> {
    match g.edge_transition(clip, start_edge) {
        None => Err(EditError::NoTransition),
        Some(id) => {
            let core = g.block(clip).unwrap();
            match crate::rational::difference_of(core.out_point, core.in_point) {
                None => Err(EditError::TimeOutOfRange),
                Some(length) => {
                    let width = wedge_width(frame, new_length, length);
                    match g.transition(id) {
                        None => Ok((width, Seq::empty())),
                        Some(before) => match with_wedge(before, start_edge, width) {
                            None => Err(EditError::TimeOutOfRange),
                            Some(after) => Ok(
                                (
                                    width,
                                    seq![Command::SetTransition { transition: id, before, after }],
                                ),
                            ),
                        },
                    }
                },
            }
        },
    }
}

fn set_wedge(transition: Transition, start_edge: bool, width: Rational) -> (r: Option<Transition>)
    ensures
        r == with_wedge(transition, start_edge, width),
{
    let seam: Rational = match transition.core.in_point.checked_add(transition.in_offset) {
        Some(seam) => seam,
        None => return None,
    };
    if start_edge {
        match seam.checked_add(width) {
            None => None,
            Some(to) => Some(
                Transition {
                    core: Block { out_point: to, ..transition.core },
                    out_offset: width,
                    ..transition
                },
            ),
        }
    } else {
        match seam.checked_sub(width) {
            None => None,
            Some(from) => Some(
                Transition {
                    core: Block { in_point: from, ..transition.core },
                    in_offset: width,
                    ..transition
                },
            ),
        }
    }
}

/// Resizes one wedge of the transition attached to `clip`, as one
/// "Transition Length" row. Returns the width actually written.
pub fn set_transition_length(
    g: &Graph,
    clip: NodeId,
    start_edge: bool,
    frame: Rational,
    new_length: Rational,
) -> (r: Result<(Rational, Edit), EditError>)
    ensures
        match wedge_plan(g@, clip, start_edge, frame, new_length) {
            Err(e) => r == Err::<(Rational, Edit), EditError>(e),
            Ok((width, commands)) => {
                &&& r is Ok
                &&& r.unwrap().0 == width
                &&& r.unwrap().1.name@ == "Transition Length"@
                &&& r.unwrap().1.commands@ == commands
            },
        },
{
    let id: NodeId = match transition_of_clip(g, clip, start_edge) {
        Some(id) => id,
        None => return Err(EditError::NoTransition),
    };
    let core: Block = match block_core_of(g, clip) {
        Some(core) => core,
        None => return Err(EditError::NoTransition),
    };
    let length: Rational = match core.out_point.checked_sub(core.in_point) {
        Some(length) => length,
        None => return Err(EditError::TimeOutOfRange),
    };
    let width: Rational = new_length.max(frame).min(length);
    let mut commands: Vec<Command> = Vec::new();
    if let Some(before) = transition_behavior(g, id) {
        match set_wedge(before, start_edge, width) {
            None => return Err(EditError::TimeOutOfRange),
            Some(after) => {
                commands.push(Command::SetTransition { transition: id, before, after });
            },
        }
    }
    assert(commands@ =~= wedge_plan(g@, clip, start_edge, frame, new_length).unwrap().1);
    Ok((width, Edit { name: "Transition Length", commands }))
}

/// Resizing a wedge does not move the seam, and leaves the other wedge alone.
pub proof fn lemma_wedge_keeps_seam(t: Transition, start_edge: bool, width: Rational)
    requires
        t.core.in_point.den > 0,
        t.in_offset.den > 0,
        width.den > 0,
        with_wedge(t, start_edge, width) is Some,
    ensures
        ({
            let after = with_wedge(t, start_edge, width).unwrap();
            &&& crate::rational::sum_of(after.core.in_point, after.in_offset)
                == crate::rational::sum_of(t.core.in_point, t.in_offset)
            &&& start_edge ==> after.in_offset == t.in_offset && after.core.in_point
                == t.core.in_point && after.out_offset == width
            &&& !start_edge ==> after.out_offset == t.out_offset && after.core.out_point
                == t.core.out_point && after.in_offset == width
        }),
{
    if !start_edge {
        let seam = crate::rational::sum_of(t.core.in_point, t.in_offset).unwrap();
        let n = t.core.in_point.num * t.in_offset.den + t.in_offset.num * t.core.in_point.den;
        let d = t.core.in_point.den * t.in_offset.den;
        assert(d > 0) by (nonlinear_arith)
            requires
                d == t.core.in_point.den * t.in_offset.den,
                t.core.in_point.den > 0,
                t.in_offset.den > 0,
        ;
        crate::rational::lemma_reduced_value(n, d);
        crate::rational::lemma_sum_of_difference(seam, width);
        crate::rational::lemma_reduced_unique(seam.num as int, seam.den as int, n, d);
    }
}

/// The width of a wedge is never below the frame where the clip has room for
/// one, and never above the clip's length.
pub proof fn lemma_wedge_width_bounds(frame: Rational, requested: Rational, length: Rational)
    requires
        frame.den > 0,
        requested.den > 0,
        length.den > 0,
        !crate::rational::before(length, frame),
    ensures
        !crate::rational::before(wedge_width(frame, requested, length), frame),
        !crate::rational::before(length, wedge_width(frame, requested, length)),
{
}

/// The wedges of one clip: on its head and on its tail.
pub type Wedges = (Option<Rational>, Option<Rational>);

/// Every clip among `blocks`, without wedges.
pub open spec fn bare_widths(
    g: crate::graph::GraphModel,
    blocks: Seq<NodeId>,
) -> Map<NodeId, Wedges>
    decreases blocks.len(),
{
    if blocks.len() == 0 {
        Map::empty()
    } else {
        let rest = bare_widths(g, blocks.drop_last());
        if g.is_timeline_clip(blocks.last()) {
            rest.insert(blocks.last(), (None, None))
        } else {
            rest
        }
    }
}

/// `widths` with the tail wedge of `clip` set, when it is keyed.
pub open spec fn with_tail(
    widths: Map<NodeId, Wedges>,
    clip: Option<NodeId>,
    width: Rational,
) -> Map<NodeId, Wedges> {
    match clip {
        Some(id) if widths.contains_key(id) => widths.insert(id, (widths[id].0, Some(width))),
        _ => widths,
    }
}

/// `widths` with the head wedge of `clip` set, when it is keyed.
pub open spec fn with_head(
    widths: Map<NodeId, Wedges>,
    clip: Option<NodeId>,
    width: Rational,
) -> Map<NodeId, Wedges> {
    match clip {
        Some(id) if widths.contains_key(id) => widths.insert(id, (Some(width), widths[id].1)),
        _ => widths,
    }
}

/// `widths` with the wedges of the transitions among `blocks`.
pub open spec fn with_transitions(
    g: crate::graph::GraphModel,
    widths: Map<NodeId, Wedges>,
    blocks: Seq<NodeId>,
) -> Map<NodeId, Wedges>
    decreases blocks.len(),
{
    if blocks.len() == 0 {
        widths
    } else {
        let rest = with_transitions(g, widths, blocks.drop_last());
        let id = blocks.last();
        match g.transition(id) {
            None => rest,
            Some(t) => with_head(
                with_tail(rest, g.connected_output(id, OUT_BLOCK@), t.in_offset),
                g.connected_output(id, IN_BLOCK@),
                t.out_offset,
            ),
        }
    }
}

/// The wedges of every clip on `track`: the widths of the transition before
/// the clip, drawn on its head, and after it, drawn on its tail. Gaps and
/// transitions are not keyed.
pub fn clip_transition_widths(g: &Graph, track: NodeId) -> (r: HashMap<NodeId, Wedges>)
    ensures
        r@ == (match g@.track(track) {
            Some(t) => with_transitions(g@, bare_widths(g@, t.blocks), t.blocks),
            None => Map::empty(),
        }),
{
    broadcast use vstd::std_specs::hash::group_hash_axioms;

    let mut widths: HashMap<NodeId, Wedges> = HashMap::new();
    if let Some(t) = track_behavior(g, track) {
        let mut i: usize = 0;
        while i < t.blocks.len()
            invariant
                i <= t.blocks.len(),
                widths@ == bare_widths(g@, t.blocks@.take(i as int)),
            decreases t.blocks.len() - i,
        {
            proof {
                assert(t.blocks@.take(i + 1).drop_last() == t.blocks@.take(i as int));
            }
            if is_timeline_clip(g, t.blocks[i]) {
                widths.insert(t.blocks[i], (None, None));
            }
            i = i + 1;
        }
        assert(t.blocks@.take(i as int) == t.blocks@);
        let ghost bare = widths@;
        let mut i: usize = 0;
        while i < t.blocks.len()
            invariant
                i <= t.blocks.len(),
                widths@ == with_transitions(g@, bare, t.blocks@.take(i as int)),
            decreases t.blocks.len() - i,
        {
            proof {
                assert(t.blocks@.take(i + 1).drop_last() == t.blocks@.take(i as int));
            }
            let id: NodeId = t.blocks[i];
            if let Some(transition) = transition_behavior(g, id) {
                if let Some(prev) = g.connected_output(id, OUT_BLOCK) {
                    let known: Option<Wedges> = match widths.get(&prev) {
                        Some(pair) => Some(*pair),
                        None => None,
                    };
                    if let Some(pair) = known {
                        widths.insert(prev, (pair.0, Some(transition.in_offset)));
                    }
                }
                if let Some(next) = g.connected_output(id, IN_BLOCK) {
                    let known: Option<Wedges> = match widths.get(&next) {
                        Some(pair) => Some(*pair),
                        None => None,
                    };
                    if let Some(pair) = known {
                        widths.insert(next, (Some(transition.out_offset), pair.1));
                    }
                }
            }
            i = i + 1;
        }
        assert(t.blocks@.take(i as int) == t.blocks@);
    }
    widths
}

proof fn lemma_bare_keys(g: crate::graph::GraphModel, blocks: Seq<NodeId>, id: NodeId)
    ensures
        bare_widths(g, blocks).contains_key(id) <==> blocks.contains(id) && g.is_timeline_clip(id),
        bare_widths(g, blocks).contains_key(id) ==> bare_widths(g, blocks)[id] == (
            None::<Rational>,
            None::<Rational>,
        ),
    decreases blocks.len(),
{
    if blocks.len() > 0 {
        let init = blocks.drop_last();
        lemma_bare_keys(g, init, id);
        if init.contains(id) {
            let i = choose|i: int| 0 <= i < init.len() && init[i] == id;
            assert(blocks[i] == id);
        }
        if blocks.contains(id) {
            let i = choose|i: int| 0 <= i < blocks.len() && blocks[i] == id;
            if i < init.len() {
                assert(init[i] == id);
            }
        }
    }
}

/// Whether `block` is a transition that fades `clip` in, reaching `width`
/// into it.
pub open spec fn fades_in(
    g: crate::graph::GraphModel,
    block: NodeId,
    clip: NodeId,
    width: Rational,
) -> bool {
    &&& g.transition(block) matches Some(t) && t.out_offset == width
    &&& g.connected_output(block, IN_BLOCK@) == Some(clip)
}

/// Whether `block` is a transition that fades `clip` out, reaching `width`
/// into it.
pub open spec fn fades_out(
    g: crate::graph::GraphModel,
    block: NodeId,
    clip: NodeId,
    width: Rational,
) -> bool {
    &&& g.transition(block) matches Some(t) && t.in_offset == width
    &&& g.connected_output(block, OUT_BLOCK@) == Some(clip)
}

/// What the wedges of a clip come from.
pub open spec fn shows_wedges(
    g: crate::graph::GraphModel,
    blocks: Seq<NodeId>,
    clip: NodeId,
    wedges: Wedges,
) -> bool {
    &&& wedges.0 matches Some(w) ==> exists|i: int|
        0 <= i < blocks.len() && fades_in(g, #[trigger] blocks[i], clip, w)
    &&& wedges.1 matches Some(w) ==> exists|i: int|
        0 <= i < blocks.len() && fades_out(g, #[trigger] blocks[i], clip, w)
    &&& forall|i: int, w: Rational|
        0 <= i < blocks.len() && #[trigger] fades_in(g, blocks[i], clip, w) ==> wedges.0 is Some
    &&& forall|i: int, w: Rational|
        0 <= i < blocks.len() && #[trigger] fades_out(g, blocks[i], clip, w) ==> wedges.1 is Some
}

proof fn lemma_wedges_step(
    g: crate::graph::GraphModel,
    widths: Map<NodeId, Wedges>,
    blocks: Seq<NodeId>,
    clip: NodeId,
)
    requires
        widths.contains_key(clip),
        widths[clip] == (None::<Rational>, None::<Rational>),
    ensures
        with_transitions(g, widths, blocks).contains_key(clip),
        shows_wedges(g, blocks, clip, with_transitions(g, widths, blocks)[clip]),
    decreases blocks.len(),
{
    if blocks.len() > 0 {
        let init = blocks.drop_last();
        let id = blocks[blocks.len() - 1];
        let rest = with_transitions(g, widths, init);
        let now = with_transitions(g, widths, blocks);
        lemma_wedges_step(g, widths, init, clip);
        assert forall|i: int| 0 <= i < init.len() implies init[i] == blocks[i] by {}
        if let Some(t) = g.transition(id) {
            assert(fades_in(g, id, clip, t.out_offset) <==> g.connected_output(id, IN_BLOCK@)
                == Some(clip));
            assert(fades_out(g, id, clip, t.in_offset) <==> g.connected_output(id, OUT_BLOCK@)
                == Some(clip));
        }
        if let Some(w) = now[clip].0 {
            if g.transition(id) is Some && g.connected_output(id, IN_BLOCK@) == Some(clip) {
                assert(fades_in(g, blocks[blocks.len() - 1], clip, w));
            } else {
                assert(rest[clip].0 == Some(w));
                let i = choose|i: int|
                    0 <= i < init.len() && fades_in(g, #[trigger] init[i], clip, w);
                assert(fades_in(g, blocks[i], clip, w));
            }
        }
        if let Some(w) = now[clip].1 {
            if g.transition(id) is Some && g.connected_output(id, OUT_BLOCK@) == Some(clip) {
                assert(fades_out(g, blocks[blocks.len() - 1], clip, w));
            } else {
                assert(rest[clip].1 == Some(w));
                let i = choose|i: int|
                    0 <= i < init.len() && fades_out(g, #[trigger] init[i], clip, w);
                assert(fades_out(g, blocks[i], clip, w));
            }
        }
        assert forall|i: int, w: Rational|
            0 <= i < blocks.len() && #[trigger] fades_in(
                g,
                blocks[i],
                clip,
                w,
            ) implies now[clip].0 is Some by {
            if i < init.len() {
                assert(fades_in(g, init[i], clip, w));
            }
        }
        assert forall|i: int, w: Rational|
            0 <= i < blocks.len() && #[trigger] fades_out(
                g,
                blocks[i],
                clip,
                w,
            ) implies now[clip].1 is Some by {
            if i < init.len() {
                assert(fades_out(g, init[i], clip, w));
            }
        }
    }
}

proof fn lemma_same_keys(
    g: crate::graph::GraphModel,
    widths: Map<NodeId, Wedges>,
    blocks: Seq<NodeId>,
    id: NodeId,
)
    ensures
        with_transitions(g, widths, blocks).contains_key(id) <==> widths.contains_key(id),
    decreases blocks.len(),
{
    if blocks.len() > 0 {
        lemma_same_keys(g, widths, blocks.drop_last(), id);
    }
}

/// The wedges of a track are keyed by its clips and nothing else. A clip has
/// a wedge on an edge exactly when a transition on the track is wired to that
/// edge, and as wide as that transition reaches into it.
pub proof fn lemma_wedges_of_track(g: crate::graph::GraphModel, blocks: Seq<NodeId>, id: NodeId)
    ensures
        ({
            let widths = with_transitions(g, bare_widths(g, blocks), blocks);
            &&& widths.contains_key(id) <==> blocks.contains(id) && g.is_timeline_clip(id)
            &&& widths.contains_key(id) ==> shows_wedges(g, blocks, id, widths[id])
        }),
{
    lemma_bare_keys(g, blocks, id);
    lemma_same_keys(g, bare_widths(g, blocks), blocks, id);
    if bare_widths(g, blocks).contains_key(id) {
        lemma_wedges_step(g, bare_widths(g, blocks), blocks, id);
    }
}

} // verus!
