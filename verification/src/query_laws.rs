//! What the readers of the graph give, stated of the nodes themselves.

use crate::graph::{BehaviorModel, NodeId, TrackType};
use crate::rational::Rational;
use vstd::prelude::*;

verus! {

/// A node has an extent exactly when it is a clip, a gap, an adjustment layer
/// or a transition, and then it is the node's own.
pub proof fn lemma_block_kinds(g: crate::graph::GraphModel, id: NodeId)
    ensures
        g.node(id) is None ==> g.block(id) is None,
        g.node(id) matches Some(n) ==> match n.behavior {
            BehaviorModel::Clip(core) => g.block(id) == Some(core) && g.clip(id) == Some(core),
            BehaviorModel::Gap(core) => g.block(id) == Some(core) && g.clip(id) is None,
            BehaviorModel::Adjustment(core) => g.block(id) == Some(core) && g.clip(id) is None,
            BehaviorModel::Transition(t) => g.block(id) == Some(t.core) && g.transition(id) == Some(t)
                && g.clip(id) is None,
            _ => g.block(id) is None && g.clip(id) is None && g.transition(id) is None,
        },
        g.node(id) matches Some(n) ==> (g.is_timeline_clip(id) <==> n.behavior is Clip
            || n.behavior is Adjustment),
        g.node(id) is None ==> !g.is_timeline_clip(id),
{
}

/// A node belongs to the class its behavior or its type says.
pub proof fn lemma_classes(g: crate::graph::GraphModel, id: NodeId)
    ensures
        ({
            let n = g.node(id).unwrap();
            let there = g.node(id) is Some;
            &&& crate::queries::in_class(g, id, crate::queries::NodeClass::Sequence) <==> there
                && n.behavior is Sequence
            &&& crate::queries::in_class(g, id, crate::queries::NodeClass::Footage) <==> there
                && n.behavior is Footage
            &&& crate::queries::in_class(g, id, crate::queries::NodeClass::Folder) <==> there
                && n.behavior is Folder
            &&& crate::queries::in_class(g, id, crate::queries::NodeClass::Multicam) <==> there
                && n.type_id == "org.olivevideoeditor.Olive.multicam"@
        }),
{
}

/// A frame of a sequence takes the inverse of the rate of its first picture
/// stream, when that is positive; without such a rate there is none.
pub proof fn lemma_frame_rate(g: crate::graph::GraphModel, seq: NodeId)
    ensures
        g.sequence(seq) is None ==> g.time_base(seq) is None,
        g.sequence(seq) matches Some(s) ==> {
            if s.video_params.len() == 0 {
                g.time_base(seq) is None && g.first_stream(seq) is None
            } else {
                let rate = s.video_params[0].frame_rate;
                &&& g.first_stream(seq) == Some(s.video_params[0])
                &&& g.time_base(seq) is Some <==> rate.num > 0 && rate.den > 0
                &&& g.time_base(seq) matches Some(tb) ==> tb.0 > 0 && tb.1 > 0 && tb.0 == rate.den
                    && tb.1 == rate.num
            }
        },
{
}

/// A second of a sequence holds as many frames as its rate says: the frame
/// numbered by the rate starts `den` seconds in.
pub proof fn lemma_frames_per_second(
    g: crate::graph::GraphModel,
    seq: NodeId,
    tb: (i64, i64),
)
    requires
        g.time_base(seq) == Some(tb),
    ensures
        ({
            let rate = g.sequence(seq).unwrap().video_params[0].frame_rate;
            crate::measures::on_frame(Rational { num: rate.den, den: 1 }, rate.num as int, tb)
        }),
{
    let rate = g.sequence(seq).unwrap().video_params[0].frame_rate;
    assert(rate.den * tb.1 == rate.num * tb.0 * 1) by (nonlinear_arith)
        requires
            tb.0 == rate.den,
            tb.1 == rate.num,
    ;
}

/// A block's frames are those of the sequence that owns the list of the track
/// it is on.
pub proof fn lemma_block_rate(
    g: crate::graph::GraphModel,
    block: NodeId,
    track: NodeId,
    list: NodeId,
    seq: NodeId,
)
    requires
        g.block(block) is Some,
        g.block(block).unwrap().track == Some(track),
        g.track(track) is Some,
        g.track(track).unwrap().track_list == Some(list),
        g.track_list(list) is Some,
        g.track_list(list).unwrap().sequence == Some(seq),
    ensures
        g.track_of(block) == Some(track),
        g.list_of(track) == Some(list),
        g.list_time_base(list) == g.time_base(seq),
        g.track_time_base(track) == g.time_base(seq),
        g.clip_time_base(block) == g.time_base(seq),
{
}

/// Without a track, a list or a sequence there are no frames to count.
pub proof fn lemma_no_rate(g: crate::graph::GraphModel, block: NodeId)
    ensures
        ({
            let track = g.block(block).unwrap().track.unwrap();
            let list = g.track(track).unwrap().track_list.unwrap();
            ||| g.clip_time_base(block) is None
            ||| {
                &&& g.block(block) is Some
                &&& g.block(block).unwrap().track is Some
                &&& g.track(track) is Some
                &&& g.track(track).unwrap().track_list is Some
                &&& g.track_list(list) is Some
                &&& g.track_list(list).unwrap().sequence is Some
            }
        }),
{
}

/// The list of a kind is the first of the sequence's lists that has it, and
/// there is none exactly when no list has it.
pub proof fn lemma_list_of_kind(g: crate::graph::GraphModel, seq: NodeId, kind: TrackType)
    ensures
        g.sequence(seq) is None ==> g.track_list_of(seq, kind) is None,
        g.sequence(seq) matches Some(s) ==> match g.track_list_of(seq, kind) {
            Some(list) => exists|i: int| #[trigger] first_of_kind(g, s.track_lists, kind, i)
                && s.track_lists[i] == list,
            None => forall|j: int|
                0 <= j < s.track_lists.len() ==> !has_kind(g, #[trigger] s.track_lists[j], kind),
        },
        g.tracks_of(seq, kind) == (match g.track_list_of(seq, kind) {
            Some(list) => g.track_list(list).unwrap().tracks,
            None => Seq::empty(),
        }),
{
    if let Some(s) = g.sequence(seq) {
        lemma_list_from(g, s.track_lists, kind, 0);
        if let Some(list) = g.track_list_of(seq, kind) {
            let i = choose|i: int|
                0 <= i < s.track_lists.len() && s.track_lists[i] == list && has_kind(g, list, kind)
                    && forall|j: int|
                    0 <= j < i ==> !has_kind(g, #[trigger] s.track_lists[j], kind);
            assert(first_of_kind(g, s.track_lists, kind, i));
        }
    }
}

/// Whether `id` is a list of that kind.
pub open spec fn has_kind(g: crate::graph::GraphModel, id: NodeId, kind: TrackType) -> bool {
    g.track_list(id) is Some && g.track_list(id).unwrap().kind == kind
}

/// Whether the list at index `i` has the kind and none before it has.
pub open spec fn first_of_kind(
    g: crate::graph::GraphModel,
    lists: Seq<NodeId>,
    kind: TrackType,
    i: int,
) -> bool {
    &&& 0 <= i < lists.len()
    &&& has_kind(g, lists[i], kind)
    &&& forall|j: int| 0 <= j < i ==> !has_kind(g, #[trigger] lists[j], kind)
}

proof fn lemma_list_from(
    g: crate::graph::GraphModel,
    lists: Seq<NodeId>,
    kind: TrackType,
    from: int,
)
    requires
        0 <= from,
        forall|j: int| 0 <= j < from && j < lists.len() ==> !has_kind(g, #[trigger] lists[j], kind),
    ensures
        match crate::queries::list_from(g, lists, kind, from) {
            Some(list) => exists|i: int|
                from <= i < lists.len() && #[trigger] lists[i] == list && has_kind(g, list, kind)
                    && forall|j: int| 0 <= j < i ==> !has_kind(g, #[trigger] lists[j], kind),
            None => forall|j: int|
                0 <= j < lists.len() ==> !has_kind(g, #[trigger] lists[j], kind),
        },
    decreases lists.len() - from,
{
    if from < lists.len() {
        if has_kind(g, lists[from], kind) {
            assert(lists[from] == lists[from]);
        } else {
            lemma_list_from(g, lists, kind, from + 1);
        }
    }
}

/// The clips of a track are its clips and adjustment layers, in its order.
pub proof fn lemma_clips_of_track(g: crate::graph::GraphModel, blocks: Seq<NodeId>)
    ensures
        crate::queries::clips_among(g, blocks) == blocks.filter(|b: NodeId| listed_clip(g, b)),
    decreases blocks.len(),
{
    reveal(Seq::filter);
    if blocks.len() > 0 {
        lemma_clips_of_track(g, blocks.drop_last());
    }
}

/// Whether the node at `id` is a clip or an adjustment layer.
pub open spec fn listed_clip(g: crate::graph::GraphModel, id: NodeId) -> bool {
    g.node(id) is Some && (g.node(id).unwrap().behavior is Clip || g.node(
        id,
    ).unwrap().behavior is Adjustment)
}

/// A clip's colour is one of eight, the same for two clips exactly when their
/// identities are a multiple of eight apart.
pub proof fn lemma_colors(a: NodeId, b: NodeId)
    ensures
        0 <= crate::queries::color_index(a) < 8,
        crate::queries::color_index(a) == crate::queries::color_index(b) <==> (a - b) % 8 == 0,
        a < 8 ==> crate::queries::color_index(a) == a,
{
}

/// A sequence that is not there lasts for nothing.
pub proof fn lemma_no_content(g: crate::graph::GraphModel, seq: NodeId)
    requires
        g.sequence(seq) is None,
    ensures
        crate::extent::content_length(g, seq) == (Rational { num: 0, den: 1 }),
{
}

} // verus!
