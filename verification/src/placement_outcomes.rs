//! What new clips show, and where they are placed.

use crate::clipboard::CopyModel;
use crate::commands::{Command, Port};
use crate::errors::EditError;
use crate::graph::{NodeId, TrackType, TEXTURE_INPUT};
use crate::rational::Rational;
use vstd::prelude::*;

verus! {

/// Whether `n` is a clip on no track that shows `frames` frames of its media
/// from frame `media` on, at the speed given and fed by nothing.
pub open spec fn shows(
    n: Option<crate::graph::NodeModel>,
    media: int,
    frames: int,
    tb: (i64, i64),
    speed_bits: u64,
) -> bool {
    &&& n is Some
    &&& n.unwrap().behavior is Clip
    &&& ({
        let core = n.unwrap().behavior->Clip_0;
        &&& core.in_point == (Rational { num: 0, den: 1 })
        &&& crate::measures::on_frame(core.out_point, frames, tb)
        &&& crate::measures::on_frame(core.media_in, media, tb)
        &&& core.track is None
        &&& core.speed_bits == speed_bits
    })
    &&& n.unwrap().type_id == "org.olivevideoeditor.Olive.clip"@
    &&& n.unwrap().links.len() == 0
    &&& n.unwrap().inputs.len() == 1
    &&& n.unwrap().inputs[0].id == TEXTURE_INPUT@
    &&& n.unwrap().inputs[0].source is None
}

/// Whether `command` puts `block` at `at` on the track at `index` of the list
/// at `list`.
pub open spec fn puts(
    command: Command,
    list: NodeId,
    index: int,
    block: NodeId,
    at: Rational,
) -> bool {
    &&& command is PlaceBlock
    &&& command->PlaceBlock_list == list
    &&& command->PlaceBlock_track_index == index
    &&& command->PlaceBlock_block == block
    &&& command->PlaceBlock_at == at
}

/// Whether `command` feeds the picture of `block` from `source`.
pub open spec fn feeds(command: Command, source: NodeId, block: NodeId) -> bool {
    &&& command is Connect
    &&& command->Connect_from == source
    &&& command->Connect_to == block
    &&& command->Connect_port == Port::Texture
}

/// The name a clip of footage gets: the label of the footage where it has
/// one, else the base name of its file.
pub proof fn lemma_display_name(g: crate::graph::GraphModel, footage: NodeId)
    ensures
        ({
            let name = crate::queries::display_name(g, footage);
            &&& g.node(footage) is Some && g.node(footage).unwrap().label.len() > 0 ==> name
                == g.node(footage).unwrap().label
            &&& g.footage(footage) is Some && g.node(footage).unwrap().label.len() == 0 ==> name
                == g.footage(footage).unwrap().base_name
            &&& g.node(footage) is None ==> name.len() == 0
        }),
{
}

/// A clip of footage shows the frames asked for, from the media frame asked
/// for, and is named after the footage; it is put on the track asked for
/// where its first frame starts, and fed by the footage.
pub proof fn lemma_footage_lands(
    g: crate::graph::GraphModel,
    seq: NodeId,
    footage: NodeId,
    kind: TrackType,
    index: usize,
    in_ts: i64,
    out_ts: i64,
    media_in_ts: i64,
    tb: (i64, i64),
    from: Rational,
    to: Rational,
    media: Rational,
)
    requires
        g.slots.len() < u64::MAX,
        crate::placement::footage_plan(
            g,
            seq,
            footage,
            kind,
            index,
            in_ts,
            out_ts,
            media_in_ts,
        ) is Ok,
        g.time_base(seq) == Some(tb),
        index <= i32::MAX,
        crate::measures::frame_at(from, in_ts as int, tb),
        crate::measures::frame_at(to, out_ts as int, tb),
        crate::measures::frame_at(media, media_in_ts as int, tb),
    ensures
        ({
            let plan = crate::placement::footage_plan(
                g,
                seq,
                footage,
                kind,
                index,
                in_ts,
                out_ts,
                media_in_ts,
            ).unwrap();
            let id = g.next_id();
            let clip = crate::placement::footage_clip(g, footage, plan.media_in, plan.length);
            let commands = crate::placement::place_commands(plan, index, id, footage);
            let list = g.track_list_of(seq, kind).unwrap();
            &&& g.track_list_of(seq, kind) is Some
            &&& shows(
                Some(clip),
                media_in_ts as int,
                out_ts - in_ts,
                tb,
                0x3ff0_0000_0000_0000,
            )
            &&& clip.label == crate::queries::display_name(g, footage)
            &&& 0 <= clip.color < 8
            &&& (id - clip.color) % 8 == 0
            &&& commands.len() == 2
            &&& puts(commands[0], list, index as int, id, from)
            &&& feeds(commands[1], footage, id)
        }),
{
    crate::measures::lemma_frame_at(from, in_ts, tb);
    crate::measures::lemma_frame_at(to, out_ts, tb);
    crate::measures::lemma_frame_at(media, media_in_ts, tb);
    let length = crate::placement::span_length(in_ts, out_ts, tb).unwrap();
    crate::measures::lemma_difference_is_way(to, from, length);
    crate::measures::lemma_frames_between(from, in_ts as int, to, out_ts as int, length, tb);
}

/// When a clip of footage is refused: for a range that is empty or starts
/// before frame 0, for a kind of track that takes no footage, for what is no
/// footage, without a frame rate, a list or a track; and otherwise only for a
/// length beyond 64 bits.
pub proof fn lemma_footage_refused(
    g: crate::graph::GraphModel,
    seq: NodeId,
    footage: NodeId,
    kind: TrackType,
    index: usize,
    in_ts: i64,
    out_ts: i64,
    media_in_ts: i64,
)
    ensures
        ({
            let r = crate::placement::footage_plan(
                g,
                seq,
                footage,
                kind,
                index,
                in_ts,
                out_ts,
                media_in_ts,
            );
            let list = g.track_list_of(seq, kind).unwrap();
            let tracks = g.track_list(list).unwrap().tracks;
            let time = Err::<crate::placement::ClipPlan, EditError>(EditError::TimeOutOfRange);
            if in_ts < 0 || out_ts <= in_ts || media_in_ts < 0 {
                r == Err::<crate::placement::ClipPlan, EditError>(EditError::ClipRange)
            } else if !(kind is Video) && !(kind is Audio) {
                r == Err::<crate::placement::ClipPlan, EditError>(EditError::TrackKind)
            } else if g.footage(footage) is None {
                r == Err::<crate::placement::ClipPlan, EditError>(EditError::NoFootage)
            } else if g.time_base(seq) is None {
                r == Err::<crate::placement::ClipPlan, EditError>(EditError::NoRate)
            } else if g.track_list_of(seq, kind) is None {
                r == Err::<crate::placement::ClipPlan, EditError>(EditError::NoList)
            } else if g.track_list(list) is Some && index < tracks.len() {
                r is Ok || r == time
            } else {
                r == Err::<crate::placement::ClipPlan, EditError>(
                    EditError::TrackIndex {
                        index,
                        count: if g.track_list(list) is Some {
                            tracks.len() as usize
                        } else {
                            0
                        },
                    },
                )
            }
        }),
{
}

/// A clip on the host's video list is put where its first frame starts and
/// lasts for the frames asked for.
pub proof fn lemma_host_lands(
    g: crate::graph::GraphModel,
    host_seq: NodeId,
    index: usize,
    in_ts: i64,
    out_ts: i64,
    tb: (i64, i64),
    from: Rational,
    to: Rational,
)
    requires
        crate::placement::host_plan(g, host_seq, index, in_ts, out_ts) is Ok,
        g.time_base(host_seq) == Some(tb),
        crate::measures::frame_at(from, in_ts as int, tb),
        crate::measures::frame_at(to, out_ts as int, tb),
    ensures
        ({
            let plan = crate::placement::host_plan(g, host_seq, index, in_ts, out_ts).unwrap();
            &&& g.track_list_of(host_seq, TrackType::Video) == Some(plan.list)
            &&& g.track_list(plan.list) is Some
            &&& index < g.track_list(plan.list).unwrap().tracks.len()
            &&& plan.at == from
            &&& plan.media_in == (Rational { num: 0, den: 1 })
            &&& crate::measures::on_frame(plan.length, out_ts - in_ts, tb)
        }),
{
    crate::measures::lemma_frame_at(from, in_ts, tb);
    crate::measures::lemma_frame_at(to, out_ts, tb);
    let length = crate::placement::span_length(in_ts, out_ts, tb).unwrap();
    crate::measures::lemma_difference_is_way(to, from, length);
    crate::measures::lemma_frames_between(from, in_ts as int, to, out_ts as int, length, tb);
}

/// A clip of a generator shows the frames asked for and is named after the
/// generator, is put on the host's track where its first frame starts, and is
/// fed by the generator.
pub proof fn lemma_generator_lands(
    g: crate::graph::GraphModel,
    host_seq: NodeId,
    generator: NodeId,
    index: usize,
    in_ts: i64,
    out_ts: i64,
    tb: (i64, i64),
    from: Rational,
    to: Rational,
)
    requires
        g.slots.len() < u64::MAX,
        crate::placement::generator_plan(g, host_seq, generator, index, in_ts, out_ts) is Ok,
        g.time_base(host_seq) == Some(tb),
        index <= i32::MAX,
        crate::measures::frame_at(from, in_ts as int, tb),
        crate::measures::frame_at(to, out_ts as int, tb),
    ensures
        ({
            let plan = crate::placement::generator_plan(
                g,
                host_seq,
                generator,
                index,
                in_ts,
                out_ts,
            ).unwrap();
            let id = g.next_id();
            let clip = crate::placement::generator_clip(g, generator, plan.length);
            let commands = crate::placement::place_commands(plan, index, id, generator);
            let list = g.track_list_of(host_seq, TrackType::Video).unwrap();
            &&& 0 <= in_ts < out_ts
            &&& g.node(generator) is Some
            &&& shows(Some(clip), 0, out_ts - in_ts, tb, 0x3ff0_0000_0000_0000)
            &&& clip.label == g.node(generator).unwrap().label
            &&& 0 <= clip.color < 8
            &&& (id - clip.color) % 8 == 0
            &&& commands.len() == 2
            &&& puts(commands[0], list, index as int, id, from)
            &&& feeds(commands[1], generator, id)
        }),
{
    lemma_host_lands(g, host_seq, index, in_ts, out_ts, tb, from, to);
    assert(crate::measures::on_frame(Rational { num: 0, den: 1 }, 0, tb)) by (nonlinear_arith)
        requires
            tb.1 > 0,
    ;
}

/// A nested sequence or a generator is refused for a range that is empty or
/// starts before frame 0 and for a source that is not there, a text clip for
/// what is no text generator; and else as any clip on the host is.
pub proof fn lemma_source_refused(
    g: crate::graph::GraphModel,
    host_seq: NodeId,
    source: NodeId,
    index: usize,
    in_ts: i64,
    out_ts: i64,
)
    ensures
        ({
            let host = crate::placement::host_plan(g, host_seq, index, in_ts, out_ts);
            let nested = crate::placement::nested_plan(g, host_seq, source, index, in_ts, out_ts);
            let made = crate::placement::generator_plan(
                g,
                host_seq,
                source,
                index,
                in_ts,
                out_ts,
            );
            let text = crate::placement::text_plan(g, host_seq, source, index, in_ts, out_ts);
            let range = Err::<crate::placement::ClipPlan, EditError>(EditError::SpanRange);
            let is_text = g.node(source) is Some && g.node(source).unwrap().type_id
                == "org.olivevideoeditor.Olive.text3"@;
            &&& nested == (if in_ts < 0 || out_ts <= in_ts {
                range
            } else if g.sequence(source) is None {
                Err(EditError::NoSourceSequence)
            } else {
                host
            })
            &&& made == (if in_ts < 0 || out_ts <= in_ts {
                range
            } else if g.node(source) is None {
                Err(EditError::NoGenerator)
            } else {
                host
            })
            &&& is_text ==> text == made
            &&& !is_text ==> text == Err::<crate::placement::ClipPlan, EditError>(
                EditError::NoTextEntry,
            )
            &&& host is Ok ==> g.time_base(host_seq) is Some
            &&& g.time_base(host_seq) is None ==> host == Err::<
                crate::placement::ClipPlan,
                EditError,
            >(EditError::NoHostRate)
            &&& g.time_base(host_seq) is Some && g.track_list_of(host_seq, TrackType::Video) is None
                ==> host == Err::<crate::placement::ClipPlan, EditError>(EditError::NoHostList)
            &&& g.time_base(host_seq) is Some ==> (g.track_list_of(
                host_seq,
                TrackType::Video,
            ) matches Some(list) ==> (g.track_list(list) matches Some(l) ==> {
                &&& index < l.tracks.len() ==> host is Ok || host->Err_0
                    == EditError::TimeOutOfRange
                &&& index >= l.tracks.len() ==> host == Err::<
                    crate::placement::ClipPlan,
                    EditError,
                >(EditError::TrackIndex { index, count: l.tracks.len() as usize })
            }))
        }),
{
}

/// An adjustment layer covers the frames asked for, on the track asked for:
/// the list and the index lead to that track.
pub proof fn lemma_adjustment_lands(
    g: crate::graph::GraphModel,
    seq: NodeId,
    track: NodeId,
    in_ts: i64,
    out_ts: i64,
    tb: (i64, i64),
    from: Rational,
    to: Rational,
)
    requires
        crate::placement::adjustment_plan(g, seq, track, in_ts, out_ts) is Ok,
        g.time_base(seq) == Some(tb),
        crate::measures::frame_at(from, in_ts as int, tb),
        crate::measures::frame_at(to, out_ts as int, tb),
        forall|list: NodeId|
            #![trigger g.track_list(list)]
            g.track_list(list) matches Some(l) ==> l.tracks.len() <= usize::MAX,
    ensures
        ({
            let (list, index, start, end) = crate::placement::adjustment_plan(
                g,
                seq,
                track,
                in_ts,
                out_ts,
            ).unwrap();
            let node = crate::placement::adjustment_node(start, end);
            &&& 0 <= in_ts < out_ts
            &&& g.track(track) is Some
            &&& g.track(track).unwrap().kind is Video
            &&& g.track(track).unwrap().track_list == Some(list)
            &&& g.track_list(list) is Some
            &&& index < g.track_list(list).unwrap().tracks.len()
            &&& g.track_list(list).unwrap().tracks[index as int] == track
            &&& start == from
            &&& end == to
            &&& node.behavior is Adjustment
            &&& node.behavior->Adjustment_0.in_point == from
            &&& node.behavior->Adjustment_0.out_point == to
            &&& node.behavior->Adjustment_0.media_in == (Rational { num: 0, den: 1 })
            &&& node.behavior->Adjustment_0.track is None
            &&& node.behavior->Adjustment_0.speed_bits == 0x3ff0_0000_0000_0000
            &&& node.type_id == "org.olivevideoeditor.Olive.adjustment"@
            &&& node.inputs.len() == 0
            &&& node.links.len() == 0
        }),
{
    crate::measures::lemma_frame_at(from, in_ts, tb);
    crate::measures::lemma_frame_at(to, out_ts, tb);
    let list = g.track(track).unwrap().track_list.unwrap();
    crate::list::lemma_position(g.track_list(list).unwrap().tracks, track);
}

/// When an adjustment layer is refused.
pub proof fn lemma_adjustment_refused(
    g: crate::graph::GraphModel,
    seq: NodeId,
    track: NodeId,
    in_ts: i64,
    out_ts: i64,
)
    ensures
        ({
            let r = crate::placement::adjustment_plan(g, seq, track, in_ts, out_ts);
            let list = g.track(track).unwrap().track_list.unwrap();
            if in_ts < 0 || out_ts <= in_ts {
                r is Err && r->Err_0 == EditError::AdjustmentRange
            } else if g.track(track) is None {
                r is Err && r->Err_0 == EditError::TrackNotInProject
            } else if !(g.track(track).unwrap().kind is Video) {
                r is Err && r->Err_0 == EditError::AdjustmentKind
            } else if g.time_base(seq) is None {
                r is Err && r->Err_0 == EditError::NoRate
            } else if g.track(track).unwrap().track_list is None {
                r is Err && r->Err_0 == EditError::TrackWithoutList
            } else if g.track_list(list) is None || !g.track_list(list).unwrap().tracks.contains(
                track,
            ) {
                r is Err && r->Err_0 == EditError::TrackNotInList
            } else {
                r is Ok
            }
        }),
{
    if let Some(t) = g.track(track) {
        if let Some(list) = t.track_list {
            if let Some(l) = g.track_list(list) {
                crate::list::lemma_position(l.tracks, track);
            }
        }
    }
}

proof fn lemma_list_kept(
    g: crate::graph::GraphModel,
    node: crate::graph::NodeModel,
    lists: Seq<NodeId>,
    kind: TrackType,
    from: int,
)
    requires
        g.slots.len() < u64::MAX,
        node.behavior is Clip,
        0 <= from,
    ensures
        crate::queries::list_from(g.appended(node), lists, kind, from)
            == crate::queries::list_from(g, lists, kind, from),
    decreases lists.len() - from,
{
    if from < lists.len() {
        let id = lists[from];
        assert(g.appended(node).track_list(id) == g.track_list(id));
        lemma_list_kept(g, node, lists, kind, from + 1);
    }
}

/// A new clip changes no list.
proof fn lemma_lists_kept(
    g: crate::graph::GraphModel,
    node: crate::graph::NodeModel,
    seq: NodeId,
    kind: TrackType,
)
    requires
        g.slots.len() < u64::MAX,
        node.behavior is Clip,
    ensures
        g.appended(node).track_list_of(seq, kind) == g.track_list_of(seq, kind),
        forall|list: NodeId| #[trigger]
            g.appended(node).track_list(list) == g.track_list(list),
{
    assert(g.appended(node).sequence(seq) == g.sequence(seq));
    if let Some(s) = g.sequence(seq) {
        lemma_list_kept(g, node, s.track_lists, kind, 0);
    }
}

proof fn lemma_pasted_item(
    g: crate::graph::GraphModel,
    seq: NodeId,
    tb: (i64, i64),
    items: Seq<CopyModel>,
    anchor: i64,
    playhead_ts: i64,
    k: int,
)
    requires
        g.slots.len() + items.len() < u64::MAX,
        crate::clipboard::with_items(g, seq, tb, items, anchor, playhead_ts).error is None,
        0 <= k < items.len(),
    ensures
        ({
            let p = crate::clipboard::with_items(g, seq, tb, items, anchor, playhead_ts);
            let q = crate::clipboard::with_items(g, seq, tb, items.take(k), anchor, playhead_ts);
            let item = items[k];
            let (start, out) = crate::clipboard::pasted_span(item, anchor, playhead_ts).unwrap();
            let length = crate::placement::span_length(start, out, tb);
            let list = g.track_list_of(seq, item.kind);
            &&& p.graph.slots.len() == g.slots.len() + items.len()
            &&& p.ids.len() == items.len()
            &&& p.commands.len() == 2 * items.len()
            &&& p.ids[k] == g.slots.len() + k
            &&& q.graph.slots.len() == g.slots.len() + k
            &&& length is Some
            &&& list is Some
            &&& g.track_list(list.unwrap()) is Some
            &&& p.graph.node(p.ids[k]) == Some(
                crate::clipboard::pasted_clip(
                    q.graph,
                    item,
                    crate::timebase::time_of(item.media_in_ts, tb),
                    length.unwrap(),
                ),
            )
            &&& p.commands[2 * k] == (Command::PlaceBlock {
                list: list.unwrap(),
                track_index: crate::clipboard::paste_index(
                    item,
                    g.track_list(list.unwrap()).unwrap().tracks.len(),
                ) as i32,
                block: p.ids[k],
                at: crate::timebase::time_of(start, tb),
            })
            &&& p.commands[2 * k + 1] == (Command::Connect {
                from: item.footage,
                to: p.ids[k],
                port: Port::Texture,
            })
            &&& g.track_list(list.unwrap()).unwrap().tracks.len() > 0
            &&& forall|id: NodeId| id < g.slots.len() ==> p.graph.node(id) == g.node(id)
            &&& forall|l: NodeId| #[trigger] p.graph.track_list(l) == g.track_list(l)
            &&& forall|kind: TrackType| #[trigger]
                p.graph.track_list_of(seq, kind) == g.track_list_of(seq, kind)
        }),
    decreases items.len(),
{
    let p = crate::clipboard::with_items(g, seq, tb, items, anchor, playhead_ts);
    let init = items.drop_last();
    let item = items[items.len() - 1];
    let q = crate::clipboard::with_items(g, seq, tb, init, anchor, playhead_ts);
    let (start, out) = crate::clipboard::pasted_span(item, anchor, playhead_ts).unwrap();
    assert(p == crate::clipboard::with_item(q, seq, tb, item, start, out));
    assert(q.error is None);
    let length = crate::placement::span_length(start, out, tb).unwrap();
    let clip = crate::clipboard::pasted_clip(
        q.graph,
        item,
        crate::timebase::time_of(item.media_in_ts, tb),
        length,
    );
    assert(p.graph == q.graph.appended(clip));
    if init.len() > 0 {
        let j = if k < init.len() {
            k
        } else {
            init.len() - 1
        };
        lemma_pasted_item(g, seq, tb, init, anchor, playhead_ts, j);
    } else {
        assert(q.graph == g);
    }
    assert(q.graph.slots.len() == g.slots.len() + init.len());
    assert forall|kind: TrackType| #[trigger]
        p.graph.track_list_of(seq, kind) == g.track_list_of(seq, kind) by {
        lemma_lists_kept(q.graph, clip, seq, kind);
        assert(q.graph.track_list_of(seq, kind) == g.track_list_of(seq, kind));
    }
    lemma_lists_kept(q.graph, clip, seq, item.kind);
    assert forall|l: NodeId| #[trigger] p.graph.track_list(l) == g.track_list(l) by {
        assert(q.graph.track_list(l) == g.track_list(l));
    }
    if k < init.len() {
        assert(items.take(k) =~= init.take(k));
        assert(init[k] == items[k]);
        assert(p.graph.node(p.ids[k]) == q.graph.node(q.ids[k]));
    } else {
        assert(items.take(k) =~= init);
    }
}

/// A pasted clip shows what the copied one did: as many frames, from the same
/// media frame, at the same speed, of the same footage. It is put where the
/// playhead says, as many frames behind the first as it was, on its own
/// track, or on the last one of its kind when there are fewer tracks now.
pub proof fn lemma_paste_lands(
    g: crate::graph::GraphModel,
    seq: NodeId,
    tb: (i64, i64),
    items: Seq<CopyModel>,
    playhead_ts: i64,
    k: int,
    from: Rational,
    to: Rational,
    media: Rational,
)
    requires
        g.slots.len() + items.len() < u64::MAX,
        0 <= k < items.len(),
        crate::clipboard::spans_fit(items, playhead_ts),
        crate::clipboard::with_items(
            g,
            seq,
            tb,
            items,
            items[0].start_ts,
            playhead_ts,
        ).error is None,
        crate::measures::frame_at(
            from,
            playhead_ts + (items[k].start_ts - items[0].start_ts),
            tb,
        ),
        crate::measures::frame_at(
            to,
            playhead_ts + (items[k].start_ts - items[0].start_ts) + items[k].length_ts,
            tb,
        ),
        crate::measures::frame_at(media, items[k].media_in_ts as int, tb),
        g.tracks_of(seq, items[k].kind).len() <= i32::MAX,
    ensures
        ({
            let p = crate::clipboard::with_items(
                g,
                seq,
                tb,
                items,
                items[0].start_ts,
                playhead_ts,
            );
            let item = items[k];
            let tracks = g.tracks_of(seq, item.kind);
            let index: int = if item.track_index < tracks.len() {
                item.track_index as int
            } else {
                tracks.len() - 1
            };
            &&& p.ids.len() == items.len()
            &&& p.commands.len() == 2 * items.len()
            &&& p.ids[k] == g.slots.len() + k
            &&& shows(
                p.graph.node(p.ids[k]),
                item.media_in_ts as int,
                item.length_ts as int,
                tb,
                item.speed_bits,
            )
            &&& item.footage < g.slots.len() ==> p.graph.node(p.ids[k]).unwrap().label
                == crate::queries::display_name(g, item.footage)
            &&& (p.ids[k] - p.graph.node(p.ids[k]).unwrap().color) % 8 == 0
            &&& tracks.len() > 0
            &&& puts(
                p.commands[2 * k],
                g.track_list_of(seq, item.kind).unwrap(),
                index,
                p.ids[k],
                from,
            )
            &&& feeds(p.commands[2 * k + 1], item.footage, p.ids[k])
            &&& forall|id: NodeId| id < g.slots.len() ==> p.graph.node(id) == g.node(id)
        }),
{
    let anchor = items[0].start_ts;
    lemma_pasted_item(g, seq, tb, items, anchor, playhead_ts, k);
    let q = crate::clipboard::with_items(g, seq, tb, items.take(k), anchor, playhead_ts);
    let item = items[k];
    let (start, out) = crate::clipboard::pasted_span(item, anchor, playhead_ts).unwrap();
    crate::measures::lemma_frame_at(from, start, tb);
    crate::measures::lemma_frame_at(to, out, tb);
    crate::measures::lemma_frame_at(media, item.media_in_ts, tb);
    let length = crate::placement::span_length(start, out, tb).unwrap();
    crate::measures::lemma_difference_is_way(to, from, length);
    crate::measures::lemma_frames_between(from, start as int, to, out as int, length, tb);
    if k > 0 {
        lemma_paste_prefix(g, seq, tb, items, anchor, playhead_ts, k);
        lemma_pasted_item(g, seq, tb, items.take(k), anchor, playhead_ts, 0);
    } else {
        assert(items.take(0) =~= Seq::empty());
    }
    if item.footage < g.slots.len() {
        assert(q.graph.node(item.footage) == g.node(item.footage));
    }
}

/// A paste that goes through went through up to every item.
proof fn lemma_paste_prefix(
    g: crate::graph::GraphModel,
    seq: NodeId,
    tb: (i64, i64),
    items: Seq<CopyModel>,
    anchor: i64,
    playhead_ts: i64,
    k: int,
)
    requires
        0 <= k <= items.len(),
        crate::clipboard::with_items(g, seq, tb, items, anchor, playhead_ts).error is None,
    ensures
        crate::clipboard::with_items(
            g,
            seq,
            tb,
            items.take(k),
            anchor,
            playhead_ts,
        ).error is None,
    decreases items.len(),
{
    if k == items.len() {
        assert(items.take(k) =~= items);
    } else {
        let init = items.drop_last();
        assert(crate::clipboard::with_items(
            g,
            seq,
            tb,
            init,
            anchor,
            playhead_ts,
        ).error is None);
        lemma_paste_prefix(g, seq, tb, init, anchor, playhead_ts, k);
        assert(items.take(k) =~= init.take(k));
    }
}

/// A paste goes through when every item finds a track of its kind, its
/// footage, and a length that fits.
pub proof fn lemma_paste_succeeds(
    g: crate::graph::GraphModel,
    seq: NodeId,
    tb: (i64, i64),
    items: Seq<CopyModel>,
    anchor: i64,
    playhead_ts: i64,
)
    requires
        g.slots.len() + items.len() < u64::MAX,
        forall|k: int|
            0 <= k < items.len() ==> {
                let item = #[trigger] items[k];
                let span = crate::clipboard::pasted_span(item, anchor, playhead_ts).unwrap();
                &&& g.tracks_of(seq, item.kind).len() > 0
                &&& g.node(item.footage) is Some
                &&& item.footage < g.slots.len()
                &&& crate::placement::span_length(span.0, span.1, tb) is Some
            },
    ensures
        crate::clipboard::with_items(g, seq, tb, items, anchor, playhead_ts).error is None,
    decreases items.len(),
{
    if items.len() > 0 {
        let init = items.drop_last();
        let item = items[items.len() - 1];
        assert forall|k: int| 0 <= k < init.len() implies {
            let item = #[trigger] init[k];
            let span = crate::clipboard::pasted_span(item, anchor, playhead_ts).unwrap();
            &&& g.tracks_of(seq, item.kind).len() > 0
            &&& g.node(item.footage) is Some
            &&& item.footage < g.slots.len()
            &&& crate::placement::span_length(span.0, span.1, tb) is Some
        } by {
            assert(init[k] == items[k]);
        }
        lemma_paste_succeeds(g, seq, tb, init, anchor, playhead_ts);
        let q = crate::clipboard::with_items(g, seq, tb, init, anchor, playhead_ts);
        if init.len() > 0 {
            lemma_pasted_item(g, seq, tb, init, anchor, playhead_ts, 0);
        }
        assert(q.graph.track_list_of(seq, item.kind) == g.track_list_of(seq, item.kind));
        let list = g.track_list_of(seq, item.kind).unwrap();
        assert(q.graph.track_list(list) == g.track_list(list));
        assert(q.graph.node(item.footage) == g.node(item.footage));
    }
}

/// The frames a pasted clip covers: as many as were copied, as far behind the
/// playhead as the copy was behind the first.
pub proof fn lemma_pasted_frames(item: CopyModel, anchor: i64, playhead_ts: i64)
    ensures
        ({
            let start = playhead_ts + (item.start_ts - anchor);
            let r = crate::clipboard::pasted_span(item, anchor, playhead_ts);
            &&& r is Some ==> r.unwrap().0 == start && r.unwrap().1 == start + item.length_ts
            &&& i64::MIN <= item.start_ts - anchor <= i64::MAX && i64::MIN <= start <= i64::MAX
                && i64::MIN <= start + item.length_ts <= i64::MAX ==> r is Some
        }),
{
}

/// A time on a frame is copied as that frame, and any time at or behind the
/// origin as the frame it falls in.
pub proof fn lemma_copied_frame(r: Rational, tb: (i64, i64))
    requires
        tb.0 > 0,
        tb.1 > 0,
        r.den > 0,
        r.num >= 0,
        r.num * tb.1 <= i64::MAX,
        r.den * tb.0 <= i64::MAX,
    ensures
        crate::clipboard::copied_ts(r, tb) is Some,
        ({
            let f = crate::clipboard::copied_ts(r, tb).unwrap();
            &&& f >= 0
            &&& f * (r.den * tb.0) <= r.num * tb.1
            &&& r.num * tb.1 < (f + 1) * (r.den * tb.0)
        }),
        forall|frame: int|
            crate::measures::on_frame(r, frame, tb) ==> crate::clipboard::copied_ts(r, tb).unwrap()
                == frame,
{
    let n = r.num * tb.1;
    let d = r.den * tb.0;
    crate::time_laws::lemma_positive(r.den as int, tb.0 as int);
    assert(n >= 0) by (nonlinear_arith)
        requires
            n == r.num * tb.1,
            r.num >= 0,
            tb.1 > 0,
    ;
    let q = n / d;
    assert(q * d <= n && n < (q + 1) * d && 0 <= q && q <= n) by (nonlinear_arith)
        requires
            q == n / d,
            d > 0,
            n >= 0,
    ;
    assert forall|frame: int| crate::measures::on_frame(r, frame, tb) implies q == frame by {
        let rd = r.den as int;
        let t = tb.0 as int;
        assert(n == frame * d) by (nonlinear_arith)
            requires
                n == frame * t * rd,
                d == rd * t,
        ;
        assert(q == frame) by (nonlinear_arith)
            requires
                q * d <= n,
                n < (q + 1) * d,
                n == frame * d,
                d > 0,
        ;
    }
}

/// A copy of a clip that lies on frames of its sequence holds the frame its
/// media starts at, the frame it starts at and the number of frames it lasts,
/// beside its footage, its speed, its links and the track it is on.
pub proof fn lemma_copy_taken(
    g: crate::graph::GraphModel,
    clip: NodeId,
    footage: NodeId,
    track: NodeId,
    list: NodeId,
    tb: (i64, i64),
    media: int,
    start: int,
    out: int,
    length: Rational,
)
    requires
        crate::upstream::input_footage(g, clip) == Some(footage),
        g.track_of(clip) == Some(track),
        crate::move_outcomes::stands_in(g, track, list),
        g.list_time_base(list) == Some(tb),
        tb.0 > 0,
        0 <= media,
        0 <= start <= out,
        crate::measures::on_frame(g.block(clip).unwrap().media_in, media, tb),
        crate::measures::on_frame(g.block(clip).unwrap().in_point, start, tb),
        crate::measures::on_frame(g.block(clip).unwrap().out_point, out, tb),
        crate::spans::canonical(length),
        crate::measures::later_by(
            g.block(clip).unwrap().in_point,
            g.block(clip).unwrap().out_point,
            length,
        ),
        g.block(clip).unwrap().media_in.num * tb.1 <= i64::MAX,
        g.block(clip).unwrap().media_in.den * tb.0 <= i64::MAX,
        g.block(clip).unwrap().in_point.num * tb.1 <= i64::MAX,
        g.block(clip).unwrap().in_point.den * tb.0 <= i64::MAX,
        length.num * tb.1 <= i64::MAX,
        length.den * tb.0 <= i64::MAX,
    ensures
        crate::clipboard::copied(g, clip) is Ok,
        crate::clipboard::copied(g, clip).unwrap() is Some,
        ({
            let item = crate::clipboard::copied(g, clip).unwrap().unwrap();
            &&& item.clip == clip
            &&& item.links == g.node(clip).unwrap().links
            &&& item.footage == footage
            &&& item.kind == g.track_list(list).unwrap().kind
            &&& item.track_index == g.track(track).unwrap().index
            &&& item.media_in_ts == media
            &&& item.start_ts == start
            &&& item.length_ts == out - start
            &&& g.clip(clip) is Some ==> item.speed_bits == g.clip(clip).unwrap().speed_bits
            &&& g.clip(clip) is None ==> item.speed_bits == 0x3ff0_0000_0000_0000
        }),
{
    let core = g.block(clip).unwrap();
    crate::measures::lemma_difference_is_way(core.out_point, core.in_point, length);
    let n = core.out_point.num * core.in_point.den - core.in_point.num * core.out_point.den;
    let d = core.out_point.den * core.in_point.den;
    crate::time_laws::lemma_positive(core.out_point.den as int, core.in_point.den as int);
    crate::spans::lemma_results_are_canonical(n, d);
    crate::time_laws::lemma_canonical_equal(
        crate::rational::difference_of(core.out_point, core.in_point).unwrap(),
        length,
    );
    crate::measures::lemma_frames_between(core.in_point, start, core.out_point, out, length, tb);
    lemma_frame_sign(core.media_in, media, tb);
    lemma_frame_sign(core.in_point, start, tb);
    lemma_frame_sign(length, out - start, tb);
    lemma_copied_frame(core.media_in, tb);
    lemma_copied_frame(core.in_point, tb);
    lemma_copied_frame(length, tb);
}

/// A frame at or behind the first lies at or behind the origin.
proof fn lemma_frame_sign(t: Rational, frame: int, tb: (i64, i64))
    requires
        crate::measures::on_frame(t, frame, tb),
        tb.0 > 0,
        frame >= 0,
    ensures
        t.num >= 0,
{
    let (n, d, a, b) = (t.num as int, t.den as int, tb.0 as int, tb.1 as int);
    assert(n >= 0) by (nonlinear_arith)
        requires
            n * b == frame * a * d,
            frame >= 0,
            a > 0,
            d > 0,
            b > 0,
    ;
}

/// Whether a clip has something to be copied.
pub open spec fn copies(g: crate::graph::GraphModel, clip: NodeId) -> bool {
    crate::clipboard::copied(g, clip) is Ok && crate::clipboard::copied(g, clip).unwrap() is Some
}

/// What the clips have to be copied, in the order they are given in.
pub open spec fn taken(g: crate::graph::GraphModel, clips: Seq<NodeId>) -> Seq<CopyModel> {
    clips.filter(|c: NodeId| copies(g, c)).map_values(
        |c: NodeId| crate::clipboard::copied(g, c).unwrap().unwrap(),
    )
}

/// Copying clips gives one copy of each that has something to be copied, and
/// nothing else; it fails exactly when the copy of one of them does.
pub proof fn lemma_copies_taken(g: crate::graph::GraphModel, clips: Seq<NodeId>)
    ensures
        crate::clipboard::copied_all(g, clips) is Ok <==> forall|i: int|
            0 <= i < clips.len() ==> crate::clipboard::copied(g, #[trigger] clips[i]) is Ok,
        crate::clipboard::copied_all(g, clips) is Ok
            ==> crate::clipboard::copied_all(g, clips).unwrap().to_multiset() == taken(
            g,
            clips,
        ).to_multiset(),
    decreases clips.len(),
{
    broadcast use vstd::seq_lib::group_to_multiset_ensures;

    let pick = |c: NodeId| copies(g, c);
    let give = |c: NodeId| crate::clipboard::copied(g, c).unwrap().unwrap();
    reveal(Seq::filter);
    if clips.len() == 0 {
        assert(taken(g, clips) =~= Seq::empty());
    } else {
        let init = clips.drop_last();
        let last = clips.last();
        lemma_copies_taken(g, init);
        assert forall|i: int| 0 <= i < init.len() implies init[i] == clips[i] by {}
        assert(clips[clips.len() - 1] == last);
        if crate::clipboard::copied_all(g, init) is Ok {
            let done = crate::clipboard::copied_all(g, init).unwrap();
            if crate::clipboard::copied(g, last) is Ok {
                if let Some(item) = crate::clipboard::copied(g, last).unwrap() {
                    let slot = crate::clipboard::slot_for(done, item);
                    lemma_slot_inside(done, item);
                    assert(clips.filter(pick) =~= init.filter(pick).push(last));
                    assert(taken(g, clips) =~= taken(g, init).push(item));
                    vstd::seq_lib::to_multiset_insert(done, slot, item);
                } else {
                    assert(clips.filter(pick) =~= init.filter(pick));
                }
                assert forall|i: int| 0 <= i < clips.len() implies crate::clipboard::copied(
                    g,
                    #[trigger] clips[i],
                ) is Ok by {
                    if i < init.len() {
                        assert(init[i] == clips[i]);
                    }
                }
            }
        } else {
            let i = choose|i: int|
                0 <= i < init.len() && !(crate::clipboard::copied(g, #[trigger] init[i]) is Ok);
            assert(clips[i] == init[i]);
        }
    }
}

proof fn lemma_slot_inside(s: Seq<CopyModel>, x: CopyModel)
    ensures
        0 <= crate::clipboard::slot_for(s, x) <= s.len(),
    decreases s.len(),
{
    if s.len() > 0 {
        lemma_slot_inside(s.drop_last(), x);
    }
}

/// Frames are copied in the rate of the sequence that owns the list, and at
/// 25 frames a second where no sequence does.
pub proof fn lemma_copy_rate(g: crate::graph::GraphModel, list: NodeId)
    ensures
        g.list_time_base(list) is Some ==> Some(crate::clipboard::copied_time_base(g, list))
            == g.list_time_base(list),
        g.list_time_base(list) is None ==> crate::clipboard::copied_time_base(g, list) == (
            1i64,
            25i64,
        ),
{
}

/// Clips placed together each show the frames asked for from the media frame
/// asked for.
pub proof fn lemma_group_clip(
    g: crate::graph::GraphModel,
    footage: NodeId,
    media_in: Rational,
    length: Rational,
    n: nat,
    k: int,
)
    requires
        g.slots.len() + n < u64::MAX,
        0 <= k < n,
    ensures
        ({
            let after = crate::links::with_clips(g, footage, media_in, length, n);
            let clip = after.node((g.slots.len() + k) as u64);
            &&& after.slots.len() == g.slots.len() + n
            &&& clip is Some
            &&& clip.unwrap().behavior is Clip
            &&& clip.unwrap().behavior->Clip_0.in_point == (Rational { num: 0, den: 1 })
            &&& clip.unwrap().behavior->Clip_0.out_point == length
            &&& clip.unwrap().behavior->Clip_0.media_in == media_in
            &&& clip.unwrap().behavior->Clip_0.track is None
            &&& clip.unwrap().behavior->Clip_0.speed_bits == 0x3ff0_0000_0000_0000
            &&& clip.unwrap().type_id == "org.olivevideoeditor.Olive.clip"@
            &&& clip.unwrap().links.len() == 0
            &&& clip.unwrap().inputs.len() == 1
            &&& clip.unwrap().inputs[0].id == TEXTURE_INPUT@
            &&& clip.unwrap().inputs[0].source is None
            &&& (g.slots.len() + k - clip.unwrap().color) % 8 == 0
            &&& footage < g.slots.len() ==> clip.unwrap().label == crate::queries::display_name(
                g,
                footage,
            )
            &&& forall|id: NodeId| id < g.slots.len() ==> after.node(id) == g.node(id)
            &&& forall|seq: NodeId, kind: TrackType| #[trigger]
                after.track_list_of(seq, kind) == g.track_list_of(seq, kind)
        }),
    decreases n,
{
    let m = (n - 1) as nat;
    let done = crate::links::with_clips(g, footage, media_in, length, m);
    let clip = crate::placement::footage_clip(done, footage, media_in, length);
    let after = crate::links::with_clips(g, footage, media_in, length, n);
    assert(after == done.appended(clip));
    if m > 0 {
        lemma_group_clip(g, footage, media_in, length, m, if k < m {
            k
        } else {
            0
        });
    }
    assert(done.slots.len() == g.slots.len() + m);
    assert forall|seq: NodeId, kind: TrackType| #[trigger]
        after.track_list_of(seq, kind) == g.track_list_of(seq, kind) by {
        lemma_lists_kept(done, clip, seq, kind);
        assert(done.track_list_of(seq, kind) == g.track_list_of(seq, kind));
    }
    if k < m {
        assert(after.node((g.slots.len() + k) as u64) == done.node((g.slots.len() + k) as u64));
    } else if footage < g.slots.len() {
        assert(done.node(footage) == g.node(footage));
    }
}

/// Clips placed together start and last as asked.
pub proof fn lemma_group_times(
    g: crate::graph::GraphModel,
    seq: NodeId,
    footage: NodeId,
    placements: Seq<(TrackType, usize)>,
    in_ts: i64,
    out_ts: i64,
    media_in_ts: i64,
    tb: (i64, i64),
    from: Rational,
    to: Rational,
    media: Rational,
)
    requires
        crate::links::group_plan(g, seq, footage, placements, in_ts, out_ts, media_in_ts) is Ok,
        g.time_base(seq) == Some(tb),
        crate::measures::frame_at(from, in_ts as int, tb),
        crate::measures::frame_at(to, out_ts as int, tb),
        crate::measures::frame_at(media, media_in_ts as int, tb),
    ensures
        ({
            let (at, media_in, length) = crate::links::group_plan(
                g,
                seq,
                footage,
                placements,
                in_ts,
                out_ts,
                media_in_ts,
            ).unwrap();
            &&& at == from
            &&& media_in == media
            &&& crate::measures::on_frame(length, out_ts - in_ts, tb)
        }),
{
    crate::measures::lemma_frame_at(from, in_ts, tb);
    crate::measures::lemma_frame_at(to, out_ts, tb);
    crate::measures::lemma_frame_at(media, media_in_ts, tb);
    let length = crate::placement::span_length(in_ts, out_ts, tb).unwrap();
    crate::measures::lemma_difference_is_way(to, from, length);
    crate::measures::lemma_frames_between(from, in_ts as int, to, out_ts as int, length, tb);
}

/// When clips placed together are refused before any is made: for fewer than
/// two tracks, for what is no footage, and without a frame rate; and
/// otherwise only for a length beyond 64 bits.
pub proof fn lemma_group_refused(
    g: crate::graph::GraphModel,
    seq: NodeId,
    footage: NodeId,
    placements: Seq<(TrackType, usize)>,
    in_ts: i64,
    out_ts: i64,
    media_in_ts: i64,
)
    ensures
        ({
            let r = crate::links::group_plan(
                g,
                seq,
                footage,
                placements,
                in_ts,
                out_ts,
                media_in_ts,
            );
            if placements.len() < 2 {
                r is Err && r->Err_0 == EditError::OneTrack
            } else if g.footage(footage) is None {
                r is Err && r->Err_0 == EditError::NoFootage
            } else if g.time_base(seq) is None {
                r is Err && r->Err_0 == EditError::NoRate
            } else {
                r is Ok || r->Err_0 == EditError::TimeOutOfRange
            }
        }),
{
}

/// Clips placed together go each to its own track, all to the same time, and
/// are all fed by the footage; the placement is refused exactly when one of
/// the kinds has no list.
pub proof fn lemma_group_places(
    g: crate::graph::GraphModel,
    seq: NodeId,
    footage: NodeId,
    clips: Seq<NodeId>,
    placements: Seq<(TrackType, usize)>,
    at: Rational,
)
    requires
        clips.len() == placements.len(),
        forall|k: int| 0 <= k < placements.len() ==> (#[trigger] placements[k]).1 <= i32::MAX,
    ensures
        ({
            let r = crate::links::placements_commands(g, seq, footage, clips, placements, at);
            &&& r is Ok <==> forall|k: int|
                0 <= k < placements.len() ==> g.track_list_of(
                    seq,
                    (#[trigger] placements[k]).0,
                ) is Some
            &&& r is Err ==> r->Err_0 == EditError::NoList
            &&& r is Ok ==> {
                &&& r.unwrap().len() == 2 * placements.len()
                &&& forall|k: int|
                    0 <= k < placements.len() ==> puts(
                        r.unwrap()[2 * k],
                        g.track_list_of(seq, (#[trigger] placements[k]).0).unwrap(),
                        placements[k].1 as int,
                        clips[k],
                        at,
                    ) && feeds(r.unwrap()[2 * k + 1], footage, clips[k])
            }
        }),
{
    lemma_group_prefix(g, seq, footage, clips, placements, at);
}

proof fn lemma_group_prefix(
    g: crate::graph::GraphModel,
    seq: NodeId,
    footage: NodeId,
    clips: Seq<NodeId>,
    placements: Seq<(TrackType, usize)>,
    at: Rational,
)
    requires
        placements.len() <= clips.len(),
        forall|k: int| 0 <= k < placements.len() ==> (#[trigger] placements[k]).1 <= i32::MAX,
    ensures
        ({
            let r = crate::links::placements_commands(g, seq, footage, clips, placements, at);
            &&& r is Ok <==> forall|k: int|
                0 <= k < placements.len() ==> g.track_list_of(
                    seq,
                    (#[trigger] placements[k]).0,
                ) is Some
            &&& r is Err ==> r->Err_0 == EditError::NoList
            &&& r is Ok ==> {
                &&& r.unwrap().len() == 2 * placements.len()
                &&& forall|k: int|
                    0 <= k < placements.len() ==> puts(
                        r.unwrap()[2 * k],
                        g.track_list_of(seq, (#[trigger] placements[k]).0).unwrap(),
                        placements[k].1 as int,
                        clips[k],
                        at,
                    ) && feeds(r.unwrap()[2 * k + 1], footage, clips[k])
            }
        }),
    decreases placements.len(),
{
    if placements.len() > 0 {
        let init = placements.drop_last();
        let last = placements.last();
        assert forall|k: int| 0 <= k < init.len() implies (#[trigger] init[k]).1 <= i32::MAX by {
            assert(init[k] == placements[k]);
        }
        lemma_group_prefix(g, seq, footage, clips, init, at);
        let r = crate::links::placements_commands(g, seq, footage, clips, placements, at);
        let done = crate::links::placements_commands(g, seq, footage, clips, init, at);
        assert(placements[placements.len() - 1] == last);
        if done is Err {
            let k = choose|k: int|
                0 <= k < init.len() && g.track_list_of(seq, (#[trigger] init[k]).0) is None;
            assert(placements[k] == init[k]);
        } else if r is Ok {
            assert forall|k: int| 0 <= k < placements.len() implies g.track_list_of(
                seq,
                (#[trigger] placements[k]).0,
            ) is Some by {
                if k < init.len() {
                    assert(init[k] == placements[k]);
                }
            }
            assert forall|k: int| 0 <= k < placements.len() implies puts(
                r.unwrap()[2 * k],
                g.track_list_of(seq, (#[trigger] placements[k]).0).unwrap(),
                placements[k].1 as int,
                clips[k],
                at,
            ) && feeds(r.unwrap()[2 * k + 1], footage, clips[k]) by {
                if k < init.len() {
                    assert(init[k] == placements[k]);
                }
            }
        }
    }
}

/// Why the paste of one item stops: without a list or a track of its kind,
/// without a length that fits, or for footage that is gone; what was pasted
/// before it stays.
pub proof fn lemma_paste_stops(
    p: crate::clipboard::Pasted,
    seq: NodeId,
    tb: (i64, i64),
    item: CopyModel,
    start: i64,
    out: i64,
)
    requires
        p.error is None,
        p.graph.slots.len() < u64::MAX,
        item.footage < p.graph.slots.len(),
    ensures
        ({
            let now = crate::clipboard::with_item(p, seq, tb, item, start, out);
            let list = p.graph.track_list_of(seq, item.kind);
            let tracks = p.graph.tracks_of(seq, item.kind);
            &&& list is None ==> now.error == Some(EditError::NoList) && now.graph == p.graph
            &&& list is Some && tracks.len() == 0 ==> now.error == Some(EditError::NoPasteTrack)
                && now.graph == p.graph
            &&& tracks.len() > 0 && crate::placement::span_length(start, out, tb) is None
                ==> now.error == Some(EditError::TimeOutOfRange) && now.graph == p.graph
            &&& tracks.len() > 0 && crate::placement::span_length(start, out, tb) is Some
                && p.graph.node(item.footage) is None ==> now.error == Some(EditError::ConnectStale)
            &&& now.error is Some ==> now.ids == p.ids && now.commands == p.commands
        }),
{
}

/// Two copies count as linked when either of their clips was linked to the
/// other.
pub proof fn lemma_copies_linked(a: CopyModel, b: CopyModel)
    ensures
        crate::clipboard::were_linked(a, b) <==> a.links.contains(b.clip) || b.links.contains(
            a.clip,
        ),
{
}

/// A clip of a nested sequence covers the frames asked for, is named after
/// the sequence, is put on the host's track where its first frame starts, and
/// is fed by the sequence.
pub proof fn lemma_nested_lands(
    g: crate::graph::GraphModel,
    host_seq: NodeId,
    source: NodeId,
    index: usize,
    in_ts: i64,
    out_ts: i64,
    tb: (i64, i64),
    from: Rational,
    to: Rational,
)
    requires
        crate::placement::nested_plan(g, host_seq, source, index, in_ts, out_ts) is Ok,
        g.time_base(host_seq) == Some(tb),
        index <= i32::MAX,
        crate::measures::frame_at(from, in_ts as int, tb),
        crate::measures::frame_at(to, out_ts as int, tb),
    ensures
        ({
            let plan = crate::placement::nested_plan(
                g,
                host_seq,
                source,
                index,
                in_ts,
                out_ts,
            ).unwrap();
            let id = g.next_id();
            let clip = crate::placement::nested_clip(g, host_seq, source, in_ts, out_ts);
            let commands = crate::placement::place_commands(plan, index, id, source);
            let list = g.track_list_of(host_seq, TrackType::Video).unwrap();
            &&& 0 <= in_ts < out_ts
            &&& g.sequence(source) is Some
            &&& clip.behavior is Clip
            &&& clip.behavior->Clip_0.in_point == from
            &&& clip.behavior->Clip_0.out_point == to
            &&& clip.behavior->Clip_0.media_in == (Rational { num: 0, den: 1 })
            &&& clip.behavior->Clip_0.track is None
            &&& clip.behavior->Clip_0.speed_bits == 0x3ff0_0000_0000_0000
            &&& clip.type_id == "org.olivevideoeditor.Olive.clip"@
            &&& clip.label == g.node(source).unwrap().label + "（序列）"@
            &&& clip.color == -1
            &&& clip.links.len() == 0
            &&& clip.inputs.len() == 1
            &&& clip.inputs[0].id == TEXTURE_INPUT@
            &&& clip.inputs[0].source is None
            &&& commands.len() == 2
            &&& puts(commands[0], list, index as int, id, from)
            &&& feeds(commands[1], source, id)
        }),
{
    lemma_host_lands(g, host_seq, index, in_ts, out_ts, tb, from, to);
    crate::measures::lemma_frame_at(from, in_ts, tb);
    crate::measures::lemma_frame_at(to, out_ts, tb);
}

} // verus!
