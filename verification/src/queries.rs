//! Reading the graph: sequences, tracks, clips and footage.

use crate::graph::{
    Behavior, Block, Footage, Graph, NodeId, Sequence, Track, TrackList, TrackType, Transition,
    VideoParams, INVALID_ID,
};
use crate::list::{contains, copy_of};
use crate::rational::Rational;
use crate::text::same_text;
use vstd::prelude::*;

verus! {

/// The type of footage nodes.
pub const FOOTAGE_TYPE_ID: &'static str = "org.olivevideoeditor.Olive.footage";

/// The type of multicam nodes.
pub const MULTICAM_TYPE_ID: &'static str = "org.olivevideoeditor.Olive.multicam";

/// The node whose stable identity is `identity`; the widget-facing ids are
/// the node identities themselves.
pub fn id_of(identity: u64) -> (r: Option<NodeId>)
    ensures
        r == (if identity == INVALID_ID {
            None
        } else {
            Some(identity)
        }),
{
    if identity == INVALID_ID {
        None
    } else {
        Some(identity)
    }
}

/// The sequence at `id`.
pub fn sequence_behavior(g: &Graph, id: NodeId) -> (r: Option<&Sequence>)
    ensures
        match r {
            Some(s) => g@.sequence(id) == Some(s@),
            None => g@.sequence(id) is None,
        },
{
    match g.get(id) {
        Some(node) => match &node.behavior {
            Behavior::Sequence(s) => Some(s),
            _ => None,
        },
        None => None,
    }
}

/// The track list at `id`.
pub fn track_list_behavior(g: &Graph, id: NodeId) -> (r: Option<&TrackList>)
    ensures
        match r {
            Some(l) => g@.track_list(id) == Some(l@),
            None => g@.track_list(id) is None,
        },
{
    match g.get(id) {
        Some(node) => match &node.behavior {
            Behavior::TrackList(l) => Some(l),
            _ => None,
        },
        None => None,
    }
}

/// The track at `id`.
pub fn track_behavior(g: &Graph, id: NodeId) -> (r: Option<&Track>)
    ensures
        match r {
            Some(t) => g@.track(id) == Some(t@),
            None => g@.track(id) is None,
        },
{
    match g.get(id) {
        Some(node) => match &node.behavior {
            Behavior::Track(t) => Some(t),
            _ => None,
        },
        None => None,
    }
}

/// The clip at `id`.
pub fn clip_behavior(g: &Graph, id: NodeId) -> (r: Option<Block>)
    ensures
        r == g@.clip(id),
{
    match g.get(id) {
        Some(node) => match &node.behavior {
            Behavior::Clip(core) => Some(*core),
            _ => None,
        },
        None => None,
    }
}

/// The transition at `id`.
pub fn transition_behavior(g: &Graph, id: NodeId) -> (r: Option<Transition>)
    ensures
        r == g@.transition(id),
{
    match g.get(id) {
        Some(node) => match &node.behavior {
            Behavior::Transition(t) => Some(*t),
            _ => None,
        },
        None => None,
    }
}

/// The footage at `id`.
pub fn footage_behavior(g: &Graph, id: NodeId) -> (r: Option<&Footage>)
    ensures
        match r {
            Some(f) => g@.footage(id) == Some(f@),
            None => g@.footage(id) is None,
        },
{
    match g.get(id) {
        Some(node) => match &node.behavior {
            Behavior::Footage(f) => Some(f),
            _ => None,
        },
        None => None,
    }
}

/// The children of the folder at `id`.
pub fn folder_children(g: &Graph, id: NodeId) -> (r: Option<&Vec<NodeId>>)
    ensures
        match r {
            Some(c) => g@.folder(id) == Some(c@),
            None => g@.folder(id) is None,
        },
{
    match g.get(id) {
        Some(node) => match &node.behavior {
            Behavior::Folder(c) => Some(c),
            _ => None,
        },
        None => None,
    }
}

/// Whether `id` is a folder.
pub fn is_folder(g: &Graph, id: NodeId) -> (b: bool)
    ensures
        b == (g@.folder(id) is Some),
{
    folder_children(g, id).is_some()
}

/// The extent of the block at `id`, whatever its kind.
pub fn block_core_of(g: &Graph, id: NodeId) -> (r: Option<Block>)
    ensures
        r == g@.block(id),
{
    match g.get(id) {
        Some(node) => match &node.behavior {
            Behavior::Clip(core) => Some(*core),
            Behavior::Gap(core) => Some(*core),
            Behavior::Transition(t) => Some(t.core),
            Behavior::Adjustment(core) => Some(*core),
            _ => None,
        },
        None => None,
    }
}

/// The groups of nodes the project lists.
#[derive(Clone, Copy, Debug, PartialEq, Eq, Structural)]
pub enum NodeClass {
    Sequence,
    Footage,
    Folder,
    Multicam,
}

/// Whether the node at `id` belongs to `class`.
pub open spec fn in_class(
    g: crate::graph::GraphModel,
    id: NodeId,
    class: NodeClass,
) -> bool {
    match class {
        NodeClass::Sequence => g.sequence(id) is Some,
        NodeClass::Footage => g.footage(id) is Some,
        NodeClass::Folder => g.folder(id) is Some,
        NodeClass::Multicam => match g.node(id) {
            Some(n) => n.type_id == MULTICAM_TYPE_ID@,
            None => false,
        },
    }
}

/// The members of `class` among the first `n` slots, in arena order.
pub open spec fn members(
    g: crate::graph::GraphModel,
    class: NodeClass,
    n: nat,
) -> Seq<NodeId>
    decreases n,
{
    if n == 0 {
        Seq::empty()
    } else {
        let rest = members(g, class, (n - 1) as nat);
        if in_class(g, (n - 1) as u64, class) {
            rest.push((n - 1) as u64)
        } else {
            rest
        }
    }
}

/// The members of a class are exactly the nodes that belong to it, each
/// listed once, in arena order.
pub proof fn lemma_members(g: crate::graph::GraphModel, class: NodeClass, n: nat)
    requires
        n <= g.slots.len() <= u64::MAX,
    ensures
        forall|id: NodeId|
            #![trigger members(g, class, n).contains(id)]
            members(g, class, n).contains(id) <==> id < n && in_class(g, id, class),
        forall|i: int, j: int|
            0 <= i < j < members(g, class, n).len() ==> members(g, class, n)[i] < members(
                g,
                class,
                n,
            )[j],
    decreases n,
{
    if n > 0 {
        let last = (n - 1) as u64;
        let rest = members(g, class, last as nat);
        lemma_members(g, class, last as nat);
        let all = members(g, class, n);
        assert forall|i: int, j: int| 0 <= i < j < all.len() implies all[i] < all[j] by {
            if j == rest.len() {
                assert(rest.contains(rest[i]));
            }
        }
        assert forall|id: NodeId| #![trigger all.contains(id)] all.contains(id) <==> id < n
            && in_class(g, id, class) by {
            if all.contains(id) {
                let i = choose|i: int| 0 <= i < all.len() && all[i] == id;
                if i < rest.len() {
                    assert(rest.contains(rest[i]));
                }
            }
            if id < n && in_class(g, id, class) {
                if id == last {
                    assert(all[rest.len() as int] == id);
                } else {
                    assert(rest.contains(id));
                    let i = choose|i: int| 0 <= i < rest.len() && rest[i] == id;
                    assert(all[i] == id);
                }
            }
        }
    }
}

fn belongs(g: &Graph, id: NodeId, class: NodeClass) -> (b: bool)
    ensures
        b == in_class(g@, id, class),
{
    match class {
        NodeClass::Sequence => sequence_behavior(g, id).is_some(),
        NodeClass::Footage => footage_behavior(g, id).is_some(),
        NodeClass::Folder => is_folder(g, id),
        NodeClass::Multicam => match g.get(id) {
            Some(node) => same_text(node.type_id.as_str(), MULTICAM_TYPE_ID),
            None => false,
        },
    }
}

fn list_members(g: &Graph, class: NodeClass) -> (r: Vec<NodeId>)
    ensures
        r@ == members(g@, class, g@.slots.len()),
{
    let mut r: Vec<NodeId> = Vec::new();
    let mut i: usize = 0;
    while i < g.slots.len()
        invariant
            i <= g.slots.len(),
            r@ == members(g@, class, i as nat),
        decreases g.slots.len() - i,
    {
        if belongs(g, i as u64, class) {
            r.push(i as u64);
        }
        i = i + 1;
    }
    r
}

/// Every sequence, in arena order.
pub fn sequence_ids(g: &Graph) -> (r: Vec<NodeId>)
    ensures
        r@ == members(g@, NodeClass::Sequence, g@.slots.len()),
{
    list_members(g, NodeClass::Sequence)
}

/// Every footage, in arena order.
pub fn footage_ids(g: &Graph) -> (r: Vec<NodeId>)
    ensures
        r@ == members(g@, NodeClass::Footage, g@.slots.len()),
{
    list_members(g, NodeClass::Footage)
}

/// Every folder, in arena order.
pub fn folder_ids(g: &Graph) -> (r: Vec<NodeId>)
    ensures
        r@ == members(g@, NodeClass::Folder, g@.slots.len()),
{
    list_members(g, NodeClass::Folder)
}

/// Every multicam node, in arena order.
pub fn multicam_nodes(g: &Graph) -> (r: Vec<NodeId>)
    ensures
        r@ == members(g@, NodeClass::Multicam, g@.slots.len()),
{
    list_members(g, NodeClass::Multicam)
}

/// The label of a node (empty when the id is stale).
pub fn node_label(g: &Graph, id: NodeId) -> (r: String)
    ensures
        r@ == (match g@.node(id) {
            Some(n) => n.label,
            None => Seq::empty(),
        }),
{
    match g.get(id) {
        Some(node) => node.label.clone(),
        None => String::new(),
    }
}

/// The type of a node (empty when the id is stale).
pub fn node_type_id(g: &Graph, id: NodeId) -> (r: String)
    ensures
        r@ == (match g@.node(id) {
            Some(n) => n.type_id,
            None => Seq::empty(),
        }),
{
    match g.get(id) {
        Some(node) => node.type_id.clone(),
        None => String::new(),
    }
}

impl crate::graph::GraphModel {
    /// The first video stream of the sequence at `seq`.
    pub open spec fn first_stream(self, seq: NodeId) -> Option<VideoParams> {
        match self.sequence(seq) {
            Some(s) => if s.video_params.len() > 0 {
                Some(s.video_params[0])
            } else {
                None
            },
            None => None,
        }
    }

    /// The frame duration of the sequence at `seq`: its rate flipped, when
    /// the rate is positive.
    pub open spec fn time_base(self, seq: NodeId) -> Option<(i64, i64)> {
        match self.first_stream(seq) {
            Some(v) => if v.frame_rate.num <= 0 || v.frame_rate.den <= 0 {
                None
            } else {
                Some((v.frame_rate.den, v.frame_rate.num))
            },
            None => None,
        }
    }

    /// The track a block sits on.
    pub open spec fn track_of(self, block: NodeId) -> Option<NodeId> {
        match self.block(block) {
            Some(core) => core.track,
            None => None,
        }
    }

    /// The list the track at `track` belongs to.
    pub open spec fn list_of(self, track: NodeId) -> Option<NodeId> {
        match self.track(track) {
            Some(t) => t.track_list,
            None => None,
        }
    }

    /// The frame duration of the sequence that owns the list at `list`.
    pub open spec fn list_time_base(self, list: NodeId) -> Option<(i64, i64)> {
        match self.track_list(list) {
            Some(l) => match l.sequence {
                Some(seq) => self.time_base(seq),
                None => None,
            },
            None => None,
        }
    }

    /// The frame duration of the sequence that holds the track at `track`.
    pub open spec fn track_time_base(self, track: NodeId) -> Option<(i64, i64)> {
        match self.list_of(track) {
            Some(list) => self.list_time_base(list),
            None => None,
        }
    }

    /// The frame duration of the sequence that holds the block at `block`.
    pub open spec fn clip_time_base(self, block: NodeId) -> Option<(i64, i64)> {
        match self.track_of(block) {
            Some(track) => self.track_time_base(track),
            None => None,
        }
    }

    /// Whether the block at `id` is a clip or an adjustment layer.
    pub open spec fn is_timeline_clip(self, id: NodeId) -> bool {
        match self.node(id) {
            Some(n) => n.behavior is Clip || n.behavior is Adjustment,
            None => false,
        }
    }
}

/// The sequence's format from its first video stream.
pub fn sequence_video_params(g: &Graph, seq: NodeId) -> (r: Option<(i32, i32, Rational)>)
    ensures
        r == (match g@.first_stream(seq) {
            Some(v) => Some((v.width, v.height, v.frame_rate)),
            None => None,
        }),
{
    match sequence_behavior(g, seq) {
        Some(s) => if s.video_params.len() > 0 {
            let v: VideoParams = s.video_params[0];
            Some((v.width, v.height, v.frame_rate))
        } else {
            None
        },
        None => None,
    }
}

/// The sequence's frame duration as a timebase; `None` without a valid rate.
pub fn sequence_time_base(g: &Graph, seq: NodeId) -> (r: Option<(i64, i64)>)
    ensures
        r == g@.time_base(seq),
{
    match sequence_video_params(g, seq) {
        Some((_, _, rate)) => {
            if rate.num <= 0 || rate.den <= 0 {
                None
            } else {
                Some((rate.den, rate.num))
            }
        },
        None => None,
    }
}

/// The frame duration of the sequence that owns the list at `list`.
pub fn list_time_base(g: &Graph, list: NodeId) -> (r: Option<(i64, i64)>)
    ensures
        r == g@.list_time_base(list),
{
    match track_list_behavior(g, list) {
        Some(l) => match l.sequence {
            Some(seq) => sequence_time_base(g, seq),
            None => None,
        },
        None => None,
    }
}

/// The frame duration of the sequence that holds the track at `track`.
pub fn track_time_base(g: &Graph, track: NodeId) -> (r: Option<(i64, i64)>)
    ensures
        r == g@.track_time_base(track),
{
    match track_behavior(g, track) {
        Some(t) => match t.track_list {
            Some(list) => list_time_base(g, list),
            None => None,
        },
        None => None,
    }
}

/// The frame duration of the sequence that holds the block at `clip`.
pub fn clip_time_base(g: &Graph, clip: NodeId) -> (r: Option<(i64, i64)>)
    ensures
        r == g@.clip_time_base(clip),
{
    match clip_track(g, clip) {
        Some(track) => track_time_base(g, track),
        None => None,
    }
}

/// Whether the block at `id` is a clip or an adjustment layer. Gaps and
/// transitions are blocks too, but no clips.
pub fn is_timeline_clip(g: &Graph, id: NodeId) -> (b: bool)
    ensures
        b == g@.is_timeline_clip(id),
{
    match g.get(id) {
        Some(node) => match &node.behavior {
            Behavior::Clip(_) => true,
            Behavior::Adjustment(_) => true,
            _ => false,
        },
        None => false,
    }
}

/// The sequence playhead (the origin for a stale id).
pub fn sequence_playhead(g: &Graph, seq: NodeId) -> (r: Rational)
    ensures
        r == (match g@.sequence(seq) {
            Some(s) => s.playhead,
            None => Rational { num: 0, den: 1 },
        }),
{
    match sequence_behavior(g, seq) {
        Some(s) => s.playhead,
        None => Rational::zero(),
    }
}

/// The graph with the playhead of the sequence at `seq` at `time`.
pub open spec fn with_playhead(
    g: crate::graph::GraphModel,
    seq: NodeId,
    time: Rational,
) -> crate::graph::GraphModel {
    match g.sequence(seq) {
        Some(s) => g.with_node(
            seq,
            crate::graph::NodeModel {
                behavior: crate::graph::BehaviorModel::Sequence(
                    crate::graph::SequenceModel { playhead: time, ..s },
                ),
                ..g.node(seq).unwrap()
            },
        ),
        None => g,
    }
}

/// Moves the sequence playhead; an id that is no sequence changes nothing.
pub fn sequence_set_playhead(g: &mut Graph, seq: NodeId, time: Rational)
    ensures
        final(g)@ == with_playhead(old(g)@, seq, time),
{
    if let Some(node) = g.get_mut(seq) {
        if let Behavior::Sequence(s) = &mut node.behavior {
            s.playhead = time;
        }
    }
}

/// The first list of kind `kind` among `lists[from..]`.
pub open spec fn list_from(
    g: crate::graph::GraphModel,
    lists: Seq<NodeId>,
    kind: TrackType,
    from: int,
) -> Option<NodeId>
    decreases lists.len() - from,
{
    if from < 0 || from >= lists.len() {
        None
    } else if g.track_list(lists[from]) is Some && g.track_list(lists[from]).unwrap().kind == kind {
        Some(lists[from])
    } else {
        list_from(g, lists, kind, from + 1)
    }
}

impl crate::graph::GraphModel {
    /// The first track list of `kind` of the sequence at `seq`.
    pub open spec fn track_list_of(self, seq: NodeId, kind: TrackType) -> Option<NodeId> {
        match self.sequence(seq) {
            Some(s) => list_from(self, s.track_lists, kind, 0),
            None => None,
        }
    }

    /// The tracks of the sequence's list of `kind`, in stack order.
    pub open spec fn tracks_of(self, seq: NodeId, kind: TrackType) -> Seq<NodeId> {
        match self.track_list_of(seq, kind) {
            Some(list) => match self.track_list(list) {
                Some(l) => l.tracks,
                None => Seq::empty(),
            },
            None => Seq::empty(),
        }
    }
}

/// The sequence's track list of `kind`, when it exists.
pub fn track_list_of(g: &Graph, seq: NodeId, kind: TrackType) -> (r: Option<NodeId>)
    ensures
        r == g@.track_list_of(seq, kind),
{
    match sequence_behavior(g, seq) {
        Some(s) => {
            let mut i: usize = 0;
            while i < s.track_lists.len()
                invariant
                    i <= s.track_lists.len(),
                    g@.sequence(seq) == Some(s@),
                    g@.track_list_of(seq, kind) == list_from(g@, s@.track_lists, kind, i as int),
                decreases s.track_lists.len() - i,
            {
                let id: NodeId = s.track_lists[i];
                if let Some(l) = track_list_behavior(g, id) {
                    if l.kind == kind {
                        return Some(id);
                    }
                }
                i = i + 1;
            }
            None
        },
        None => None,
    }
}

/// The tracks of the sequence's list of `kind`, in stack order.
pub fn track_ids(g: &Graph, seq: NodeId, kind: TrackType) -> (r: Vec<NodeId>)
    ensures
        r@ == g@.tracks_of(seq, kind),
{
    match track_list_of(g, seq, kind) {
        Some(list) => match track_list_behavior(g, list) {
            Some(l) => copy_of(&l.tracks),
            None => Vec::new(),
        },
        None => Vec::new(),
    }
}

/// The clips among `blocks`, in order.
pub open spec fn clips_among(
    g: crate::graph::GraphModel,
    blocks: Seq<NodeId>,
) -> Seq<NodeId>
    decreases blocks.len(),
{
    if blocks.len() == 0 {
        Seq::empty()
    } else if g.is_timeline_clip(blocks.last()) {
        clips_among(g, blocks.drop_last()).push(blocks.last())
    } else {
        clips_among(g, blocks.drop_last())
    }
}

/// The clips of a track, in timeline order: gaps and transitions are
/// skipped, adjustment layers are not.
pub fn clip_ids(g: &Graph, track: NodeId) -> (r: Vec<NodeId>)
    ensures
        r@ == (match g@.track(track) {
            Some(t) => clips_among(g@, t.blocks),
            None => Seq::empty(),
        }),
{
    let mut r: Vec<NodeId> = Vec::new();
    if let Some(t) = track_behavior(g, track) {
        let mut i: usize = 0;
        while i < t.blocks.len()
            invariant
                i <= t.blocks.len(),
                r@ == clips_among(g@, t.blocks@.take(i as int)),
            decreases t.blocks.len() - i,
        {
            proof {
                assert(t.blocks@.take(i + 1).drop_last() == t.blocks@.take(i as int));
            }
            if is_timeline_clip(g, t.blocks[i]) {
                r.push(t.blocks[i]);
            }
            i = i + 1;
        }
        assert(t.blocks@.take(i as int) == t.blocks@);
    }
    r
}

/// A block's in point, out point and media in-point.
pub fn clip_range(g: &Graph, clip: NodeId) -> (r: Option<(Rational, Rational, Rational)>)
    ensures
        r == (match g@.block(clip) {
            Some(c) => Some((c.in_point, c.out_point, c.media_in)),
            None => None,
        }),
{
    match block_core_of(g, clip) {
        Some(c) => Some((c.in_point, c.out_point, c.media_in)),
        None => None,
    }
}

/// The track a block sits on.
pub fn clip_track(g: &Graph, clip: NodeId) -> (r: Option<NodeId>)
    ensures
        r == g@.track_of(clip),
{
    match block_core_of(g, clip) {
        Some(c) => c.track,
        None => None,
    }
}

/// A track's muted flag: silenced on an audio track, hidden on others.
pub fn track_muted(g: &Graph, track: NodeId) -> (r: Option<bool>)
    ensures
        r == (match g@.track(track) {
            Some(t) => Some(t.muted),
            None => None,
        }),
{
    match track_behavior(g, track) {
        Some(t) => Some(t.muted),
        None => None,
    }
}

/// A track's locked flag.
pub fn track_locked(g: &Graph, track: NodeId) -> (r: Option<bool>)
    ensures
        r == (match g@.track(track) {
            Some(t) => Some(t.locked),
            None => None,
        }),
{
    match track_behavior(g, track) {
        Some(t) => Some(t.locked),
        None => None,
    }
}

/// The colour index a clip keeps for its whole life.
pub open spec fn color_index(id: NodeId) -> i32 {
    (id % 8) as i32
}

/// The colour index of a clip, fixed by its identity when it is created.
pub fn clip_color_index(id: NodeId) -> (c: i32)
    ensures
        c == color_index(id),
        0 <= c < 8,
{
    (id % 8) as i32
}

/// The name a clip of `footage` is labelled with.
pub open spec fn display_name(g: crate::graph::GraphModel, footage: NodeId) -> Seq<char> {
    match g.node(footage) {
        Some(n) if n.label.len() > 0 => n.label,
        _ => match g.footage(footage) {
            Some(f) => f.base_name,
            None => Seq::empty(),
        },
    }
}

/// The display name of `footage` for clip labels: its node label, else the
/// base name of its file.
pub fn footage_display_name(g: &Graph, footage: NodeId) -> (r: String)
    ensures
        r@ == display_name(g@, footage),
{
    if let Some(node) = g.get(footage) {
        if !node.label.as_str().is_empty() {
            return node.label.clone();
        }
    }
    match footage_behavior(g, footage) {
        Some(f) => f.base_name.clone(),
        None => String::new(),
    }
}

} // verus!
