//! Placing clips: footage, nested sequences, generators and adjustment
//! layers.
//!
//! The new block enters the graph right away; its placement on the track and
//! its wiring are the undoable part.

use crate::commands::{Command, Edit, Port};
use crate::errors::EditError;
use crate::graph::{Behavior, Block, Graph, Node, NodeId, TrackType, TEXTURE_INPUT};
use crate::list::position;
use crate::queries::{
    clip_color_index, footage_behavior, footage_display_name, node_label, sequence_behavior,
    sequence_time_base, track_behavior, track_list_behavior, track_list_of,
};
use crate::rational::Rational;
use crate::text::{joined, same_text};
use crate::timebase::ts_to_rational;
use crate::transitions::NORMAL_SPEED_BITS;
use vstd::prelude::*;

verus! {

/// The type of clip nodes.
pub const CLIP_TYPE_ID: &'static str = "org.olivevideoeditor.Olive.clip";

/// The type of adjustment layers.
pub const ADJUSTMENT_TYPE_ID: &'static str = "org.olivevideoeditor.Olive.adjustment";

/// The type of the text generator: the bin entry for text, and the type a
/// timeline drop routes to the generator path.
pub const TEXT_FOOTAGE_TYPE_ID: &'static str = "org.olivevideoeditor.Olive.text3";

/// A clip that has yet to be placed: its media window and length.
pub open spec fn unplaced_clip(media_in: Rational, length: Rational) -> Block {
    Block {
        in_point: Rational { num: 0, den: 1 },
        out_point: length,
        media_in,
        track: None,
        speed_bits: NORMAL_SPEED_BITS,
    }
}

/// A clip node with an unconnected picture input.
pub open spec fn clip_node(label: Seq<char>, color: i32, core: Block) -> crate::graph::NodeModel {
    crate::graph::NodeModel {
        label,
        color,
        ..crate::graph::with_input(
            crate::graph::new_node(CLIP_TYPE_ID@, crate::graph::BehaviorModel::Clip(core)),
            TEXTURE_INPUT@,
        )
    }
}

/// The clip that `footage` gets next: labelled after it, and coloured by the
/// identity the clip is about to have.
pub open spec fn footage_clip(
    g: crate::graph::GraphModel,
    footage: NodeId,
    media_in: Rational,
    length: Rational,
) -> crate::graph::NodeModel {
    clip_node(
        crate::queries::display_name(g, footage),
        crate::queries::color_index(g.next_id()),
        unplaced_clip(media_in, length),
    )
}

pub(crate) fn new_clip(g: &mut Graph, label: String, color: i32, core: Block) -> (id: NodeId)
    ensures
        id == old(g)@.next_id(),
        id == old(g)@.slots.len(),
        final(g)@ == old(g)@.appended(clip_node(label@, color, core)),
{
    let mut node: Node = Node::new(CLIP_TYPE_ID, Behavior::Clip(core));
    node.add_input(TEXTURE_INPUT);
    node.label = label;
    node.color = color;
    g.add_node(node)
}

/// Creates a clip of `footage` in the graph, on no track yet.
pub fn create_footage_clip(
    g: &mut Graph,
    footage: NodeId,
    media_in: Rational,
    length: Rational,
) -> (id: NodeId)
    ensures
        id == old(g)@.next_id(),
        id == old(g)@.slots.len(),
        final(g)@ == old(g)@.appended(footage_clip(old(g)@, footage, media_in, length)),
{
    let label: String = footage_display_name(g, footage);
    let next: NodeId = g.slots.len() as u64;
    let core: Block = Block {
        in_point: Rational::zero(),
        out_point: length,
        media_in,
        track: None,
        speed_bits: NORMAL_SPEED_BITS,
    };
    new_clip(g, label, clip_color_index(next), core)
}

/// The number of tracks in the list at `list`.
pub open spec fn track_count(g: crate::graph::GraphModel, list: NodeId) -> nat {
    match g.track_list(list) {
        Some(l) => l.tracks.len(),
        None => 0,
    }
}

/// The number of tracks in the list at `list`.
pub(crate) fn count_tracks(g: &Graph, list: NodeId) -> (n: usize)
    ensures
        n == track_count(g@, list),
{
    match track_list_behavior(g, list) {
        Some(l) => l.tracks.len(),
        None => 0,
    }
}

/// A clip about to be placed.
#[derive(Clone, Copy, Debug)]
pub struct ClipPlan {
    pub list: NodeId,
    pub at: Rational,
    pub media_in: Rational,
    pub length: Rational,
}

/// The length of `[in_ts, out_ts)`.
pub open spec fn span_length(in_ts: i64, out_ts: i64, tb: (i64, i64)) -> Option<Rational> {
    crate::rational::difference_of(
        crate::timebase::time_of(out_ts, tb),
        crate::timebase::time_of(in_ts, tb),
    )
}

/// The commands that place `block` and feed its picture from `source`.
pub open spec fn place_commands(
    plan: ClipPlan,
    track_index: usize,
    block: NodeId,
    source: NodeId,
) -> Seq<Command> {
    seq![
        Command::PlaceBlock { list: plan.list, track_index: track_index as i32, block, at: plan.at },
        Command::Connect { from: source, to: block, port: Port::Texture },
    ]
}

fn placing(plan: ClipPlan, track_index: usize, block: NodeId, source: NodeId) -> (e: Edit)
    ensures
        e.name@ == "Add Clip"@,
        e.commands@ == place_commands(plan, track_index, block, source),
{
    let mut commands: Vec<Command> = Vec::new();
    commands.push(
        Command::PlaceBlock { list: plan.list, track_index: track_index as i32, block, at: plan.at },
    );
    commands.push(Command::Connect { from: source, to: block, port: Port::Texture });
    assert(commands@ =~= place_commands(plan, track_index, block, source));
    Edit { name: "Add Clip", commands }
}

/// What placing a footage clip comes to.
pub open spec fn footage_plan(
    g: crate::graph::GraphModel,
    seq: NodeId,
    footage: NodeId,
    kind: TrackType,
    track_index: usize,
    in_ts: i64,
    out_ts: i64,
    media_in_ts: i64,
) -> Result<ClipPlan, EditError> {
    if in_ts < 0 || out_ts <= in_ts || media_in_ts < 0 {
        Err(EditError::ClipRange)
    } else if kind != TrackType::Video && kind != TrackType::Audio {
        Err(EditError::TrackKind)
    } else if g.footage(footage) is None {
        Err(EditError::NoFootage)
    } else {
        match g.time_base(seq) {
            None => Err(EditError::NoRate),
            Some(tb) => match g.track_list_of(seq, kind) {
                None => Err(EditError::NoList),
                Some(list) => if track_index >= track_count(g, list) {
                    Err(
                        EditError::TrackIndex {
                            index: track_index,
                            count: track_count(g, list) as usize,
                        },
                    )
                } else {
                    match span_length(in_ts, out_ts, tb) {
                        None => Err(EditError::TimeOutOfRange),
                        Some(length) => Ok(
                            ClipPlan {
                                list,
                                at: crate::timebase::time_of(in_ts, tb),
                                media_in: crate::timebase::time_of(media_in_ts, tb),
                                length,
                            },
                        ),
                    }
                },
            },
        }
    }
}

/// Places a clip of `footage` on track `track_index` of the sequence's `kind`
/// list, as one "Add Clip" row. The timestamps are frames of the sequence.
pub fn place_footage_clip(
    g: &mut Graph,
    seq: NodeId,
    footage: NodeId,
    kind: TrackType,
    track_index: usize,
    in_ts: i64,
    out_ts: i64,
    media_in_ts: i64,
) -> (r: Result<(NodeId, Edit), EditError>)
    ensures
        match footage_plan(
            old(g)@,
            seq,
            footage,
            kind,
            track_index,
            in_ts,
            out_ts,
            media_in_ts,
        ) {
            Err(e) => r == Err::<(NodeId, Edit), EditError>(e) && final(g)@ == old(g)@,
            Ok(plan) => {
                &&& r is Ok
                &&& r.unwrap().0 == old(g)@.next_id()
                &&& final(g)@ == old(g)@.appended(
                    footage_clip(old(g)@, footage, plan.media_in, plan.length),
                )
                &&& r.unwrap().1.name@ == "Add Clip"@
                &&& r.unwrap().1.commands@ == place_commands(
                    plan,
                    track_index,
                    r.unwrap().0,
                    footage,
                )
            },
        },
{
    if in_ts < 0 || out_ts <= in_ts || media_in_ts < 0 {
        return Err(EditError::ClipRange);
    }
    if kind != TrackType::Video && kind != TrackType::Audio {
        return Err(EditError::TrackKind);
    }
    if footage_behavior(g, footage).is_none() {
        return Err(EditError::NoFootage);
    }
    let tb: (i64, i64) = match sequence_time_base(g, seq) {
        Some(tb) => tb,
        None => return Err(EditError::NoRate),
    };
    let list: NodeId = match track_list_of(g, seq, kind) {
        Some(list) => list,
        None => return Err(EditError::NoList),
    };
    let count: usize = count_tracks(g, list);
    if track_index >= count {
        return Err(EditError::TrackIndex { index: track_index, count });
    }
    let at: Rational = ts_to_rational(in_ts, tb);
    let media_in: Rational = ts_to_rational(media_in_ts, tb);
    let length: Rational = match ts_to_rational(out_ts, tb).checked_sub(at) {
        Some(length) => length,
        None => return Err(EditError::TimeOutOfRange),
    };
    let plan: ClipPlan = ClipPlan { list, at, media_in, length };
    let clip: NodeId = create_footage_clip(g, footage, media_in, length);
    Ok((clip, placing(plan, track_index, clip, footage)))
}

/// What adding an adjustment layer comes to: the list and index of its
/// track, and its span.
pub open spec fn adjustment_plan(
    g: crate::graph::GraphModel,
    seq: NodeId,
    track: NodeId,
    in_ts: i64,
    out_ts: i64,
) -> Result<(NodeId, usize, Rational, Rational), EditError> {
    if in_ts < 0 || out_ts <= in_ts {
        Err(EditError::AdjustmentRange)
    } else {
        match g.track(track) {
            None => Err(EditError::TrackNotInProject),
            Some(t) => if t.kind != TrackType::Video {
                Err(EditError::AdjustmentKind)
            } else {
                match g.time_base(seq) {
                    None => Err(EditError::NoRate),
                    Some(tb) => match t.track_list {
                        None => Err(EditError::TrackWithoutList),
                        Some(list) => match g.track_list(list) {
                            None => Err(EditError::TrackNotInList),
                            Some(l) => match crate::list::position_of(l.tracks, track) {
                                None => Err(EditError::TrackNotInList),
                                Some(i) => Ok(
                                    (
                                        list,
                                        i as usize,
                                        crate::timebase::time_of(in_ts, tb),
                                        crate::timebase::time_of(out_ts, tb),
                                    ),
                                ),
                            },
                        },
                    },
                }
            },
        }
    }
}

/// An adjustment layer over a span: no label, no colour, no media.
pub open spec fn adjustment_node(from: Rational, to: Rational) -> crate::graph::NodeModel {
    crate::graph::new_node(
        ADJUSTMENT_TYPE_ID@,
        crate::graph::BehaviorModel::Adjustment(crate::transitions::loose_block(from, to)),
    )
}

/// Adds an adjustment layer to `track` over `[in_ts, out_ts)`, as one "Add
/// Adjustment Layer" row. Only video tracks take adjustment layers.
pub fn create_adjustment_layer(
    g: &mut Graph,
    seq: NodeId,
    track: NodeId,
    in_ts: i64,
    out_ts: i64,
) -> (r: Result<(NodeId, Edit), EditError>)
    ensures
        match adjustment_plan(old(g)@, seq, track, in_ts, out_ts) {
            Err(e) => r == Err::<(NodeId, Edit), EditError>(e) && final(g)@ == old(g)@,
            Ok((list, track_index, from, to)) => {
                &&& r is Ok
                &&& r.unwrap().0 == old(g)@.next_id()
                &&& final(g)@ == old(g)@.appended(adjustment_node(from, to))
                &&& r.unwrap().1.name@ == "Add Adjustment Layer"@
                &&& r.unwrap().1.commands@ == seq![
                    Command::PlaceBlock {
                        list,
                        track_index: track_index as i32,
                        block: r.unwrap().0,
                        at: from,
                    },
                ]
            },
        },
{
    if in_ts < 0 || out_ts <= in_ts {
        return Err(EditError::AdjustmentRange);
    }
    let t = match track_behavior(g, track) {
        Some(t) => t,
        None => return Err(EditError::TrackNotInProject),
    };
    if t.kind != TrackType::Video {
        return Err(EditError::AdjustmentKind);
    }
    let tb: (i64, i64) = match sequence_time_base(g, seq) {
        Some(tb) => tb,
        None => return Err(EditError::NoRate),
    };
    let list: NodeId = match t.track_list {
        Some(list) => list,
        None => return Err(EditError::TrackWithoutList),
    };
    let track_index: usize = match track_list_behavior(g, list) {
        Some(l) => match position(&l.tracks, track) {
            Some(i) => i,
            None => return Err(EditError::TrackNotInList),
        },
        None => return Err(EditError::TrackNotInList),
    };
    let from: Rational = ts_to_rational(in_ts, tb);
    let to: Rational = ts_to_rational(out_ts, tb);
    let core: Block = Block {
        in_point: from,
        out_point: to,
        media_in: Rational::zero(),
        track: None,
        speed_bits: NORMAL_SPEED_BITS,
    };
    let block: NodeId = g.add_node(Node::new(ADJUSTMENT_TYPE_ID, Behavior::Adjustment(core)));
    let mut commands: Vec<Command> = Vec::new();
    commands.push(Command::PlaceBlock { list, track_index: track_index as i32, block, at: from });
    assert(commands@ =~= seq![
        Command::PlaceBlock { list, track_index: track_index as i32, block, at: from },
    ]);
    Ok((block, Edit { name: "Add Adjustment Layer", commands }))
}

/// What placing a clip on the host sequence's video list comes to, its
/// source being there.
pub open spec fn host_plan(
    g: crate::graph::GraphModel,
    host_seq: NodeId,
    track_index: usize,
    in_ts: i64,
    out_ts: i64,
) -> Result<ClipPlan, EditError> {
    match g.time_base(host_seq) {
        None => Err(EditError::NoHostRate),
        Some(tb) => match g.track_list_of(host_seq, TrackType::Video) {
            None => Err(EditError::NoHostList),
            Some(list) => if track_index >= track_count(g, list) {
                Err(
                    EditError::TrackIndex {
                        index: track_index,
                        count: track_count(g, list) as usize,
                    },
                )
            } else {
                match span_length(in_ts, out_ts, tb) {
                    None => Err(EditError::TimeOutOfRange),
                    Some(length) => Ok(
                        ClipPlan {
                            list,
                            at: crate::timebase::time_of(in_ts, tb),
                            media_in: Rational { num: 0, den: 1 },
                            length,
                        },
                    ),
                }
            },
        },
    }
}

fn plan_on_host(g: &Graph, host_seq: NodeId, track_index: usize, in_ts: i64, out_ts: i64) -> (r:
    Result<ClipPlan, EditError>)
    ensures
        r == host_plan(g@, host_seq, track_index, in_ts, out_ts),
{
    let tb: (i64, i64) = match sequence_time_base(g, host_seq) {
        Some(tb) => tb,
        None => return Err(EditError::NoHostRate),
    };
    let list: NodeId = match track_list_of(g, host_seq, TrackType::Video) {
        Some(list) => list,
        None => return Err(EditError::NoHostList),
    };
    let count: usize = count_tracks(g, list);
    if track_index >= count {
        return Err(EditError::TrackIndex { index: track_index, count });
    }
    let at: Rational = ts_to_rational(in_ts, tb);
    match ts_to_rational(out_ts, tb).checked_sub(at) {
        Some(length) => Ok(ClipPlan { list, at, media_in: Rational::zero(), length }),
        None => Err(EditError::TimeOutOfRange),
    }
}

/// What placing a nested sequence comes to.
pub open spec fn nested_plan(
    g: crate::graph::GraphModel,
    host_seq: NodeId,
    source_seq: NodeId,
    track_index: usize,
    in_ts: i64,
    out_ts: i64,
) -> Result<ClipPlan, EditError> {
    if in_ts < 0 || out_ts <= in_ts {
        Err(EditError::SpanRange)
    } else if g.sequence(source_seq) is None {
        Err(EditError::NoSourceSequence)
    } else {
        host_plan(g, host_seq, track_index, in_ts, out_ts)
    }
}

/// The label of a node (empty when the id is stale).
pub open spec fn label_of(g: crate::graph::GraphModel, id: NodeId) -> Seq<char> {
    match g.node(id) {
        Some(n) => n.label,
        None => Seq::empty(),
    }
}

/// The clip that the sequence at `source_seq` gets in the one at `host_seq`.
pub open spec fn nested_clip(
    g: crate::graph::GraphModel,
    host_seq: NodeId,
    source_seq: NodeId,
    in_ts: i64,
    out_ts: i64,
) -> crate::graph::NodeModel {
    let tb = g.time_base(host_seq).unwrap();
    clip_node(
        label_of(g, source_seq) + "（序列）"@,
        (-1) as i32,
        crate::transitions::loose_block(
            crate::timebase::time_of(in_ts, tb),
            crate::timebase::time_of(out_ts, tb),
        ),
    )
}

/// Places one video clip fed by the sequence `source_seq` on the host
/// sequence, from frame `in_ts` to frame `out_ts`, as one "Add Clip" row.
pub fn place_nested_sequence_clip(
    g: &mut Graph,
    host_seq: NodeId,
    source_seq: NodeId,
    track_index: usize,
    in_ts: i64,
    out_ts: i64,
) -> (r: Result<(NodeId, Edit), EditError>)
    ensures
        match nested_plan(old(g)@, host_seq, source_seq, track_index, in_ts, out_ts) {
            Err(e) => r == Err::<(NodeId, Edit), EditError>(e) && final(g)@ == old(g)@,
            Ok(plan) => {
                &&& r is Ok
                &&& r.unwrap().0 == old(g)@.next_id()
                &&& final(g)@ == old(g)@.appended(
                    nested_clip(old(g)@, host_seq, source_seq, in_ts, out_ts),
                )
                &&& r.unwrap().1.name@ == "Add Clip"@
                &&& r.unwrap().1.commands@ == place_commands(
                    plan,
                    track_index,
                    r.unwrap().0,
                    source_seq,
                )
            },
        },
{
    if in_ts < 0 || out_ts <= in_ts {
        return Err(EditError::SpanRange);
    }
    if sequence_behavior(g, source_seq).is_none() {
        return Err(EditError::NoSourceSequence);
    }
    match plan_on_host(g, host_seq, track_index, in_ts, out_ts) {
        Err(e) => Err(e),
        Ok(plan) => {
            let end: Rational = match sequence_time_base(g, host_seq) {
                Some(tb) => ts_to_rational(out_ts, tb),
                None => plan.at,
            };
            let label: String = joined(node_label(g, source_seq).as_str(), "（序列）");
            let core: Block = Block {
                in_point: plan.at,
                out_point: end,
                media_in: Rational::zero(),
                track: None,
                speed_bits: NORMAL_SPEED_BITS,
            };
            let clip: NodeId = new_clip(g, label, -1, core);
            Ok((clip, placing(plan, track_index, clip, source_seq)))
        },
    }
}

/// What placing a generator clip comes to.
pub open spec fn generator_plan(
    g: crate::graph::GraphModel,
    host_seq: NodeId,
    generator: NodeId,
    track_index: usize,
    in_ts: i64,
    out_ts: i64,
) -> Result<ClipPlan, EditError> {
    if in_ts < 0 || out_ts <= in_ts {
        Err(EditError::SpanRange)
    } else if g.node(generator) is None {
        Err(EditError::NoGenerator)
    } else {
        host_plan(g, host_seq, track_index, in_ts, out_ts)
    }
}

/// The clip that `generator` gets next.
pub open spec fn generator_clip(
    g: crate::graph::GraphModel,
    generator: NodeId,
    length: Rational,
) -> crate::graph::NodeModel {
    clip_node(
        label_of(g, generator),
        crate::queries::color_index(g.next_id()),
        unplaced_clip(Rational { num: 0, den: 1 }, length),
    )
}

/// Places one video clip fed by a generator on the host sequence, labelled
/// after it, as one "Add Clip" row.
pub fn place_generator_clip(
    g: &mut Graph,
    host_seq: NodeId,
    generator: NodeId,
    track_index: usize,
    in_ts: i64,
    out_ts: i64,
) -> (r: Result<(NodeId, Edit), EditError>)
    ensures
        match generator_plan(old(g)@, host_seq, generator, track_index, in_ts, out_ts) {
            Err(e) => r == Err::<(NodeId, Edit), EditError>(e) && final(g)@ == old(g)@,
            Ok(plan) => {
                &&& r is Ok
                &&& r.unwrap().0 == old(g)@.next_id()
                &&& final(g)@ == old(g)@.appended(
                    generator_clip(old(g)@, generator, plan.length),
                )
                &&& r.unwrap().1.name@ == "Add Clip"@
                &&& r.unwrap().1.commands@ == place_commands(
                    plan,
                    track_index,
                    r.unwrap().0,
                    generator,
                )
            },
        },
{
    if in_ts < 0 || out_ts <= in_ts {
        return Err(EditError::SpanRange);
    }
    if !g.is_valid(generator) {
        return Err(EditError::NoGenerator);
    }
    match plan_on_host(g, host_seq, track_index, in_ts, out_ts) {
        Err(e) => Err(e),
        Ok(plan) => {
            let label: String = node_label(g, generator);
            let next: NodeId = g.slots.len() as u64;
            let core: Block = Block {
                in_point: Rational::zero(),
                out_point: plan.length,
                media_in: Rational::zero(),
                track: None,
                speed_bits: NORMAL_SPEED_BITS,
            };
            let clip: NodeId = new_clip(g, label, clip_color_index(next), core);
            Ok((clip, placing(plan, track_index, clip, generator)))
        },
    }
}

/// What placing a text clip comes to: only the text generator takes this
/// path.
pub open spec fn text_plan(
    g: crate::graph::GraphModel,
    host_seq: NodeId,
    text: NodeId,
    track_index: usize,
    in_ts: i64,
    out_ts: i64,
) -> Result<ClipPlan, EditError> {
    if g.node(text) is Some && g.node(text).unwrap().type_id == TEXT_FOOTAGE_TYPE_ID@ {
        generator_plan(g, host_seq, text, track_index, in_ts, out_ts)
    } else {
        Err(EditError::NoTextEntry)
    }
}

/// Places one video clip fed by the text generator `text`, as one "Add Clip"
/// row.
pub fn place_text_clip(
    g: &mut Graph,
    host_seq: NodeId,
    text: NodeId,
    track_index: usize,
    in_ts: i64,
    out_ts: i64,
) -> (r: Result<(NodeId, Edit), EditError>)
    ensures
        match text_plan(old(g)@, host_seq, text, track_index, in_ts, out_ts) {
            Err(e) => r == Err::<(NodeId, Edit), EditError>(e) && final(g)@ == old(g)@,
            Ok(plan) => {
                &&& r is Ok
                &&& r.unwrap().0 == old(g)@.next_id()
                &&& final(g)@ == old(g)@.appended(generator_clip(old(g)@, text, plan.length))
                &&& r.unwrap().1.name@ == "Add Clip"@
                &&& r.unwrap().1.commands@ == place_commands(plan, track_index, r.unwrap().0, text)
            },
        },
{
    let is_text: bool = match g.get(text) {
        Some(node) => same_text(node.type_id.as_str(), TEXT_FOOTAGE_TYPE_ID),
        None => false,
    };
    if !is_text {
        return Err(EditError::NoTextEntry);
    }
    place_generator_clip(g, host_seq, text, track_index, in_ts, out_ts)
}

} // verus!
