//! Copying and pasting clips.

use crate::commands::{Command, Edit, Port};
use crate::errors::EditError;
use crate::graph::{Block, Graph, NodeId, TrackType};
use crate::list::contains;
use crate::placement::{count_tracks, new_clip};
use crate::queries::{
    block_core_of, clip_behavior, clip_color_index, footage_display_name, sequence_time_base,
    track_behavior, track_list_behavior, track_list_of,
};
use crate::rational::Rational;
use crate::timebase::ts_to_rational;
use crate::transitions::NORMAL_SPEED_BITS;
use crate::upstream::find_input_footage;
use vstd::prelude::*;

verus! {

/// One copied clip: everything needed to place it again, and what it was
/// linked to.
#[derive(Clone, Debug)]
pub struct ClipboardClip {
    /// The clip that was copied.
    pub clip: NodeId,
    /// What that clip was linked to.
    pub links: Vec<NodeId>,
    /// The footage the clip decodes.
    pub footage: NodeId,
    /// The kind of track the clip was on.
    pub kind: TrackType,
    /// The index of that track among its kind.
    pub track_index: usize,
    /// The media in-point, in frames.
    pub media_in_ts: i64,
    /// The timeline in point, in frames.
    pub start_ts: i64,
    /// The duration, in frames.
    pub length_ts: i64,
    /// The playback speed, as the bit pattern of its double.
    pub speed_bits: u64,
}

/// What a [`ClipboardClip`] holds.
#[verifier::ext_equal]
pub struct CopyModel {
    pub clip: NodeId,
    pub links: Seq<NodeId>,
    pub footage: NodeId,
    pub kind: TrackType,
    pub track_index: usize,
    pub media_in_ts: i64,
    pub start_ts: i64,
    pub length_ts: i64,
    pub speed_bits: u64,
}

impl View for ClipboardClip {
    type V = CopyModel;

    open spec fn view(&self) -> CopyModel {
        CopyModel {
            clip: self.clip,
            links: self.links@,
            footage: self.footage,
            kind: self.kind,
            track_index: self.track_index,
            media_in_ts: self.media_in_ts,
            start_ts: self.start_ts,
            length_ts: self.length_ts,
            speed_bits: self.speed_bits,
        }
    }
}

/// What copied clips hold.
pub open spec fn copies_model(items: Seq<ClipboardClip>) -> Seq<CopyModel> {
    Seq::new(items.len(), |i: int| items[i]@)
}

/// Whether the clips that two copies were taken from were linked then.
pub open spec fn were_linked(a: CopyModel, b: CopyModel) -> bool {
    a.links.contains(b.clip) || b.links.contains(a.clip)
}

/// Whether `n` fits 64 bits.
pub open spec fn fits(n: int) -> bool {
    i64::MIN <= n <= i64::MAX
}

/// The frame a time falls in, toward zero; 0 where the division is
/// undefined. `None` when a product leaves 64 bits.
pub open spec fn copied_ts(r: Rational, tb: (i64, i64)) -> Option<i64> {
    if !fits(r.num * tb.1) || !fits(r.den * tb.0) {
        None
    } else if r.den * tb.0 == 0 || (r.num * tb.1 == i64::MIN && r.den * tb.0 == -1) {
        Some(0)
    } else {
        Some(crate::timebase::truncated_quotient(r.num * tb.1, r.den * tb.0) as i64)
    }
}

/// The timebase a copied clip's frames are counted in: that of the sequence
/// owning its list, 25 frames a second without one.
pub open spec fn copied_time_base(g: crate::graph::GraphModel, list: NodeId) -> (i64, i64) {
    match g.list_time_base(list) {
        Some(tb) => tb,
        None => (1, 25),
    }
}

/// What copying one clip comes to: nothing without footage upstream, an
/// extent, a track and a list.
pub open spec fn copied(g: crate::graph::GraphModel, clip: NodeId) -> Result<
    Option<CopyModel>,
    EditError,
> {
    match (crate::upstream::input_footage(g, clip), g.block(clip)) {
        (Some(footage), Some(core)) => match core.track {
            None => Ok(None),
            Some(track) => match g.track(track) {
                None => Ok(None),
                Some(t) => match t.track_list {
                    None => Ok(None),
                    Some(list) => match g.track_list(list) {
                        None => Ok(None),
                        Some(l) => {
                            let tb = copied_time_base(g, list);
                            match crate::rational::difference_of(core.out_point, core.in_point) {
                                None => Err(EditError::TimeOutOfRange),
                                Some(length) => match (
                                    copied_ts(core.media_in, tb),
                                    copied_ts(core.in_point, tb),
                                    copied_ts(length, tb),
                                ) {
                                    (Some(media_in_ts), Some(start_ts), Some(length_ts)) => Ok(
                                        Some(
                                            CopyModel {
                                                clip,
                                                links: g.links(clip),
                                                footage,
                                                kind: l.kind,
                                                track_index: if t.index < 0 {
                                                    0
                                                } else {
                                                    t.index as usize
                                                },
                                                media_in_ts,
                                                start_ts,
                                                length_ts,
                                                speed_bits: match g.clip(clip) {
                                                    Some(c) => c.speed_bits,
                                                    None => NORMAL_SPEED_BITS,
                                                },
                                            },
                                        ),
                                    ),
                                    _ => Err(EditError::TimeOutOfRange),
                                },
                            }
                        },
                    },
                },
            },
        },
        _ => Ok(None),
    }
}

/// Where `x` goes in `s`: behind the last entry that does not start after it.
pub open spec fn slot_for(s: Seq<CopyModel>, x: CopyModel) -> int
    decreases s.len(),
{
    if s.len() == 0 {
        0
    } else if s.last().start_ts <= x.start_ts {
        s.len() as int
    } else {
        slot_for(s.drop_last(), x)
    }
}

/// `s` with `x` entered by its start, behind those that start with it.
pub open spec fn entered_by_start(s: Seq<CopyModel>, x: CopyModel) -> Seq<CopyModel> {
    s.insert(slot_for(s, x), x)
}

/// What copying clips comes to, in the order of their starts; clips that
/// start together keep the order they are given in.
pub open spec fn copied_all(g: crate::graph::GraphModel, clips: Seq<NodeId>) -> Result<
    Seq<CopyModel>,
    EditError,
>
    decreases clips.len(),
{
    if clips.len() == 0 {
        Ok(Seq::empty())
    } else {
        match copied_all(g, clips.drop_last()) {
            Err(e) => Err(e),
            Ok(done) => match copied(g, clips.last()) {
                Err(e) => Err(e),
                Ok(None) => Ok(done),
                Ok(Some(item)) => Ok(entered_by_start(done, item)),
            },
        }
    }
}

proof fn lemma_product(x: i64, y: i64)
    ensures
        -0x4000_0000_0000_0000_0000_0000_0000_0000 <= x * y
            <= 0x4000_0000_0000_0000_0000_0000_0000_0000,
{
    assert(-0x4000_0000_0000_0000_0000_0000_0000_0000 <= x * y
        <= 0x4000_0000_0000_0000_0000_0000_0000_0000) by (nonlinear_arith)
        requires
            -0x8000_0000_0000_0000 <= x <= 0x7fff_ffff_ffff_ffff,
            -0x8000_0000_0000_0000 <= y <= 0x7fff_ffff_ffff_ffff,
    ;
}

fn product(x: i64, y: i64) -> (r: Option<i64>)
    ensures
        match r {
            Some(p) => p == x * y,
            None => !fits(x * y),
        },
{
    proof {
        lemma_product(x, y);
    }
    let p: i128 = (x as i128) * (y as i128);
    if p < -0x8000_0000_0000_0000 || p > 0x7fff_ffff_ffff_ffff {
        None
    } else {
        Some(p as i64)
    }
}

fn magnitude_of(n: i64) -> (m: u64)
    ensures
        m == crate::rational::magnitude(n as int),
{
    if n < 0 {
        (-(n as i128)) as u64
    } else {
        n as u64
    }
}

fn to_ts(r: Rational, tb: (i64, i64)) -> (ts: Option<i64>)
    ensures
        ts == copied_ts(r, tb),
{
    let n: i64 = match product(r.num, tb.1) {
        Some(n) => n,
        None => return None,
    };
    let d: i64 = match product(r.den, tb.0) {
        Some(d) => d,
        None => return None,
    };
    if d == 0 || (n == i64::MIN && d == -1) {
        return Some(0);
    }
    let m: u64 = magnitude_of(n);
    let k: u64 = magnitude_of(d);
    let q: u64 = m / k;
    proof {
        assert(q <= m) by (nonlinear_arith)
            requires
                q == m / k,
                k > 0,
        ;
        if k > 1 {
            assert(2 * q <= m) by (nonlinear_arith)
                requires
                    q == m / k,
                    k >= 2,
            ;
        }
    }
    if (n < 0) != (d < 0) {
        Some((-(q as i128)) as i64)
    } else {
        Some(q as i64)
    }
}

fn copy_clip(g: &Graph, clip: NodeId) -> (r: Result<Option<ClipboardClip>, EditError>)
    ensures
        match copied(g@, clip) {
            Err(e) => r == Err::<Option<ClipboardClip>, EditError>(e),
            Ok(None) => r == Ok::<Option<ClipboardClip>, EditError>(None),
            Ok(Some(item)) => r is Ok && r.unwrap() is Some && r.unwrap().unwrap()@ == item,
        },
{
    let footage: NodeId = match find_input_footage(g, clip) {
        Some(footage) => footage,
        None => return Ok(None),
    };
    let core: Block = match block_core_of(g, clip) {
        Some(core) => core,
        None => return Ok(None),
    };
    let track: NodeId = match core.track {
        Some(track) => track,
        None => return Ok(None),
    };
    let t = match track_behavior(g, track) {
        Some(t) => t,
        None => return Ok(None),
    };
    let list: NodeId = match t.track_list {
        Some(list) => list,
        None => return Ok(None),
    };
    let l = match track_list_behavior(g, list) {
        Some(l) => l,
        None => return Ok(None),
    };
    let tb: (i64, i64) = match l.sequence {
        Some(seq) => match sequence_time_base(g, seq) {
            Some(tb) => tb,
            None => (1, 25),
        },
        None => (1, 25),
    };
    let length: Rational = match core.out_point.checked_sub(core.in_point) {
        Some(length) => length,
        None => return Err(EditError::TimeOutOfRange),
    };
    let speed_bits: u64 = match clip_behavior(g, clip) {
        Some(c) => c.speed_bits,
        None => NORMAL_SPEED_BITS,
    };
    match (to_ts(core.media_in, tb), to_ts(core.in_point, tb), to_ts(length, tb)) {
        (Some(media_in_ts), Some(start_ts), Some(length_ts)) => Ok(
            Some(
                ClipboardClip {
                    clip,
                    links: g.links_of(clip),
                    footage,
                    kind: l.kind,
                    track_index: if t.index < 0 {
                        0
                    } else {
                        t.index as usize
                    },
                    media_in_ts,
                    start_ts,
                    length_ts,
                    speed_bits,
                },
            ),
        ),
        _ => Err(EditError::TimeOutOfRange),
    }
}

fn enter_by_start(items: &mut Vec<ClipboardClip>, x: ClipboardClip)
    ensures
        copies_model(final(items)@) == entered_by_start(copies_model(old(items)@), x@),
{
    let ghost before = copies_model(items@);
    let mut i: usize = items.len();
    assert(before.take(i as int) == before);
    while i > 0 && items[i - 1].start_ts > x.start_ts
        invariant
            i <= items.len(),
            before == copies_model(items@),
            slot_for(before, x@) == slot_for(before.take(i as int), x@),
        decreases i,
    {
        assert(before.take(i as int).drop_last() == before.take(i - 1));
        assert(before.take(i as int).last() == items@[i - 1]@);
        i = i - 1;
    }
    assert(i > 0 ==> before.take(i as int).last() == items@[i - 1]@);
    assert(slot_for(before, x@) == i);
    let ghost item = x@;
    items.insert(i, x);
    assert(copies_model(items@) =~= before.insert(i as int, item));
}

proof fn lemma_copied_fail(
    g: crate::graph::GraphModel,
    clips: Seq<NodeId>,
    n: int,
    e: EditError,
)
    requires
        0 <= n <= clips.len(),
        copied_all(g, clips.take(n)) == Err::<Seq<CopyModel>, EditError>(e),
    ensures
        copied_all(g, clips) == Err::<Seq<CopyModel>, EditError>(e),
    decreases clips.len() - n,
{
    if n == clips.len() {
        assert(clips.take(n) == clips);
    } else {
        assert(clips.take(n + 1).drop_last() == clips.take(n));
        lemma_copied_fail(g, clips, n + 1, e);
    }
}

/// Captures the selected clips, in the order of their starts. Clips without
/// footage upstream, and clips on no track, are skipped. A time that leaves
/// the 64-bit range is an error.
pub fn copy_clips(g: &Graph, clips: &Vec<NodeId>) -> (r: Result<Vec<ClipboardClip>, EditError>)
    ensures
        match copied_all(g@, clips@) {
            Err(e) => r == Err::<Vec<ClipboardClip>, EditError>(e),
            Ok(items) => r is Ok && copies_model(r.unwrap()@) == items,
        },
{
    let mut items: Vec<ClipboardClip> = Vec::new();
    let mut i: usize = 0;
    assert(copies_model(items@) =~= Seq::empty());
    while i < clips.len()
        invariant
            i <= clips.len(),
            copied_all(g@, clips@.take(i as int)) == Ok::<Seq<CopyModel>, EditError>(
                copies_model(items@),
            ),
        decreases clips.len() - i,
    {
        proof {
            assert(clips@.take(i + 1).drop_last() == clips@.take(i as int));
        }
        match copy_clip(g, clips[i]) {
            Err(e) => {
                proof {
                    lemma_copied_fail(g@, clips@, i + 1, e);
                }
                return Err(e);
            },
            Ok(None) => {},
            Ok(Some(item)) => {
                enter_by_start(&mut items, item);
            },
        }
        i = i + 1;
    }
    assert(clips@.take(i as int) == clips@);
    Ok(items)
}

/// The frames a pasted clip covers: shifted so that `anchor` lands on the
/// playhead. `None` when a frame leaves 64 bits.
pub open spec fn pasted_span(item: CopyModel, anchor: i64, playhead_ts: i64) -> Option<
    (i64, i64),
> {
    let offset = item.start_ts - anchor;
    let start = playhead_ts + offset;
    let out = start + item.length_ts;
    if fits(offset) && fits(start) && fits(out) {
        Some((start as i64, out as i64))
    } else {
        None
    }
}

/// Whether every item has a span to be pasted at.
pub open spec fn spans_fit(items: Seq<CopyModel>, playhead_ts: i64) -> bool {
    forall|i: int|
        0 <= i < items.len() ==> pasted_span(
            #[trigger] items[i],
            items[0].start_ts,
            playhead_ts,
        ) is Some
}

/// A paste under way; once `error` is set it goes no further.
pub struct Pasted {
    pub graph: crate::graph::GraphModel,
    pub ids: Seq<NodeId>,
    pub commands: Seq<Command>,
    pub error: Option<EditError>,
}

/// The index of the track to paste on: the one the clip came from, or the
/// last one when there are fewer.
pub open spec fn paste_index(item: CopyModel, count: nat) -> usize {
    if item.track_index < count {
        item.track_index
    } else {
        (count - 1) as usize
    }
}

/// The paste with one more item.
pub open spec fn with_item(
    p: Pasted,
    seq: NodeId,
    tb: (i64, i64),
    item: CopyModel,
    start: i64,
    out: i64,
) -> Pasted {
    if p.error is Some {
        p
    } else {
        match p.graph.track_list_of(seq, item.kind) {
            None => Pasted { error: Some(EditError::NoList), ..p },
            Some(list) => {
                let count = crate::placement::track_count(p.graph, list);
                if count == 0 {
                    Pasted { error: Some(EditError::NoPasteTrack), ..p }
                } else {
                    match crate::placement::span_length(start, out, tb) {
                        None => Pasted { error: Some(EditError::TimeOutOfRange), ..p },
                        Some(length) => {
                            let id = p.graph.next_id();
                            let graph = p.graph.appended(
                                pasted_clip(
                                    p.graph,
                                    item,
                                    crate::timebase::time_of(item.media_in_ts, tb),
                                    length,
                                ),
                            );
                            if graph.node(item.footage) is None {
                                Pasted { graph, error: Some(EditError::ConnectStale), ..p }
                            } else {
                                Pasted {
                                    graph,
                                    ids: p.ids.push(id),
                                    commands: p.commands.push(
                                        Command::PlaceBlock {
                                            list,
                                            track_index: paste_index(item, count) as i32,
                                            block: id,
                                            at: crate::timebase::time_of(start, tb),
                                        },
                                    ).push(
                                        Command::Connect {
                                            from: item.footage,
                                            to: id,
                                            port: Port::Texture,
                                        },
                                    ),
                                    error: None,
                                }
                            }
                        },
                    }
                }
            },
        }
    }
}

/// The clip a pasted item becomes.
pub open spec fn pasted_clip(
    g: crate::graph::GraphModel,
    item: CopyModel,
    media_in: Rational,
    length: Rational,
) -> crate::graph::NodeModel {
    crate::placement::clip_node(
        crate::queries::display_name(g, item.footage),
        crate::queries::color_index(g.next_id()),
        Block {
            speed_bits: item.speed_bits,
            ..crate::placement::unplaced_clip(media_in, length)
        },
    )
}

/// The paste of `items`, their first start landing on the playhead.
pub open spec fn with_items(
    g: crate::graph::GraphModel,
    seq: NodeId,
    tb: (i64, i64),
    items: Seq<CopyModel>,
    anchor: i64,
    playhead_ts: i64,
) -> Pasted
    decreases items.len(),
{
    if items.len() == 0 {
        Pasted { graph: g, ids: Seq::empty(), commands: Seq::empty(), error: None }
    } else {
        let (start, out) = pasted_span(items.last(), anchor, playhead_ts).unwrap();
        with_item(
            with_items(g, seq, tb, items.drop_last(), anchor, playhead_ts),
            seq,
            tb,
            items.last(),
            start,
            out,
        )
    }
}

/// Whether the copies at `i` and `j`, the later one, are linked when pasted:
/// the first with every other, and those that were linked.
pub open spec fn links_on(items: Seq<CopyModel>, i: int, j: int) -> bool {
    i == 0 || were_linked(items[i], items[j])
}

/// The pairs to link of the pasted clip at `j` with the first `n`.
pub open spec fn pairs_before(
    items: Seq<CopyModel>,
    ids: Seq<NodeId>,
    j: int,
    n: nat,
) -> Seq<(NodeId, NodeId)>
    decreases n,
{
    if n == 0 {
        Seq::empty()
    } else {
        let done = pairs_before(items, ids, j, (n - 1) as nat);
        if links_on(items, n - 1, j) {
            done.push((ids[n - 1], ids[j]))
        } else {
            done
        }
    }
}

/// The pairs to link among the first `n` pasted clips.
pub open spec fn paste_pairs(
    items: Seq<CopyModel>,
    ids: Seq<NodeId>,
    n: nat,
) -> Seq<(NodeId, NodeId)>
    decreases n,
{
    if n == 0 {
        Seq::empty()
    } else {
        paste_pairs(items, ids, (n - 1) as nat) + pairs_before(items, ids, n - 1, (n - 1) as nat)
    }
}

/// The commands that link pairs.
pub open spec fn link_pairs(pairs: Seq<(NodeId, NodeId)>) -> Seq<Command> {
    Seq::new(pairs.len(), |k: int| Command::LinkPair { a: pairs[k].0, b: pairs[k].1 })
}

/// The links of a pasted group: the first clip with every other, and those
/// whose originals were linked.
pub open spec fn paste_links(items: Seq<CopyModel>, ids: Seq<NodeId>) -> Seq<Command> {
    link_pairs(paste_pairs(items, ids, ids.len()))
}

fn span(item: &ClipboardClip, anchor: i64, playhead_ts: i64) -> (r: Option<(i64, i64)>)
    ensures
        r == pasted_span(item@, anchor, playhead_ts),
{
    match item.start_ts.checked_sub(anchor) {
        None => None,
        Some(offset) => match playhead_ts.checked_add(offset) {
            None => None,
            Some(start) => match start.checked_add(item.length_ts) {
                None => None,
                Some(out) => Some((start, out)),
            },
        },
    }
}

proof fn lemma_error_stays(
    g: crate::graph::GraphModel,
    seq: NodeId,
    tb: (i64, i64),
    items: Seq<CopyModel>,
    anchor: i64,
    playhead_ts: i64,
    n: int,
)
    requires
        0 <= n <= items.len(),
        with_items(g, seq, tb, items.take(n), anchor, playhead_ts).error is Some,
    ensures
        with_items(g, seq, tb, items, anchor, playhead_ts) == with_items(
            g,
            seq,
            tb,
            items.take(n),
            anchor,
            playhead_ts,
        ),
    decreases items.len() - n,
{
    if n == items.len() {
        assert(items.take(n) == items);
    } else {
        assert(items.take(n + 1).drop_last() == items.take(n));
        lemma_error_stays(g, seq, tb, items, anchor, playhead_ts, n + 1);
    }
}

fn was_linked(a: &ClipboardClip, b: &ClipboardClip) -> (r: bool)
    ensures
        r == were_linked(a@, b@),
{
    contains(&a.links, b.clip) || contains(&b.links, a.clip)
}

fn link_group(items: &Vec<ClipboardClip>, ids: &Vec<NodeId>, commands: &mut Vec<Command>)
    requires
        items.len() == ids.len(),
    ensures
        final(commands)@ == old(commands)@ + paste_links(copies_model(items@), ids@),
{
    let ghost placed = commands@;
    let ghost model = copies_model(items@);
    let mut j: usize = 0;
    assert(commands@ =~= placed + link_pairs(paste_pairs(model, ids@, 0)));
    while j < ids.len()
        invariant
            j <= ids.len(),
            items.len() == ids.len(),
            model == copies_model(items@),
            commands@ == placed + link_pairs(paste_pairs(model, ids@, j as nat)),
        decreases ids.len() - j,
    {
        let ghost done = paste_pairs(model, ids@, j as nat);
        let mut i: usize = 0;
        assert(done + pairs_before(model, ids@, j as int, 0) =~= done);
        while i < j
            invariant
                i <= j < ids.len(),
                items.len() == ids.len(),
                model == copies_model(items@),
                commands@ == placed + link_pairs(
                    done + pairs_before(model, ids@, j as int, i as nat),
                ),
            decreases j - i,
        {
            let ghost before = done + pairs_before(model, ids@, j as int, i as nat);
            if i == 0 || was_linked(&items[i], &items[j]) {
                commands.push(Command::LinkPair { a: ids[i], b: ids[j] });
                let ghost pair = (ids@[i as int], ids@[j as int]);
                assert(done + pairs_before(model, ids@, j as int, (i + 1) as nat) =~= before.push(
                    pair,
                ));
                assert(link_pairs(before.push(pair)) =~= link_pairs(before).push(
                    Command::LinkPair { a: pair.0, b: pair.1 },
                ));
                assert(commands@ =~= placed + link_pairs(before.push(pair)));
            }
            i = i + 1;
        }
        j = j + 1;
    }
}

/// Pastes copied clips at the playhead, as one "Paste" row. The first item's
/// in point moves to the playhead and the others keep their offsets; each
/// item returns to the track it came from, or to the last one of its kind.
/// The pasted clips are one linked group: the first is linked with every
/// other, and clips that were linked stay linked.
///
/// Each clip enters the graph as its turn comes, so the clips of the items
/// before a refused one stay there, and the clip of an item whose footage is
/// gone.
pub fn paste_clips(
    g: &mut Graph,
    seq: NodeId,
    items: &Vec<ClipboardClip>,
    playhead_ts: i64,
) -> (r: Result<(Vec<NodeId>, Edit), EditError>)
    ensures
        if items@.len() == 0 {
            r == Err::<(Vec<NodeId>, Edit), EditError>(EditError::ClipboardEmpty) && final(g)@
                == old(g)@
        } else if !spans_fit(copies_model(items@), playhead_ts) {
            r == Err::<(Vec<NodeId>, Edit), EditError>(EditError::TimeOutOfRange) && final(g)@
                == old(g)@
        } else {
            match old(g)@.time_base(seq) {
                None => r == Err::<(Vec<NodeId>, Edit), EditError>(EditError::NoRate)
                    && final(g)@ == old(g)@,
                Some(tb) => {
                    let p = with_items(
                        old(g)@,
                        seq,
                        tb,
                        copies_model(items@),
                        items@[0].start_ts,
                        playhead_ts,
                    );
                    &&& final(g)@ == p.graph
                    &&& match p.error {
                        Some(e) => r == Err::<(Vec<NodeId>, Edit), EditError>(e),
                        None => {
                            &&& r is Ok
                            &&& r.unwrap().0@ == p.ids
                            &&& r.unwrap().1.name@ == "Paste"@
                            &&& r.unwrap().1.commands@ == p.commands + paste_links(
                                copies_model(items@),
                                p.ids,
                            )
                        },
                    }
                },
            }
        },
{
    if items.len() == 0 {
        return Err(EditError::ClipboardEmpty);
    }
    let anchor: i64 = items[0].start_ts;
    let ghost model = copies_model(items@);
    let mut i: usize = 0;
    while i < items.len()
        invariant
            i <= items.len(),
            items@.len() > 0,
            anchor == items@[0].start_ts,
            g@ == old(g)@,
            model == copies_model(items@),
            forall|j: int|
                0 <= j < i ==> pasted_span(#[trigger] model[j], anchor, playhead_ts) is Some,
        decreases items.len() - i,
    {
        if span(&items[i], anchor, playhead_ts).is_none() {
            assert(pasted_span(model[i as int], anchor, playhead_ts) is None);
            return Err(EditError::TimeOutOfRange);
        }
        i = i + 1;
    }
    let tb: (i64, i64) = match sequence_time_base(g, seq) {
        Some(tb) => tb,
        None => return Err(EditError::NoRate),
    };
    let ghost start_graph = g@;
    let mut ids: Vec<NodeId> = Vec::new();
    let mut commands: Vec<Command> = Vec::new();
    let mut i: usize = 0;
    while i < items.len()
        invariant
            i <= items.len(),
            items@.len() > 0,
            anchor == items@[0].start_ts,
            model == copies_model(items@),
            spans_fit(model, playhead_ts),
            ids.len() == i,
            start_graph == old(g)@,
            start_graph.time_base(seq) == Some(tb),
            with_items(start_graph, seq, tb, model.take(i as int), anchor, playhead_ts)
                == (Pasted { graph: g@, ids: ids@, commands: commands@, error: None }),
        decreases items.len() - i,
    {
        proof {
            assert(model.take(i + 1).drop_last() == model.take(i as int));
            assert(pasted_span(model[i as int], anchor, playhead_ts) is Some);
            assert(model.take(i + 1).last() == items@[i as int]@);
        }
        let item: &ClipboardClip = &items[i];
        let ghost before = Pasted { graph: g@, ids: ids@, commands: commands@, error: None };
        let (start, out): (i64, i64) = match span(item, anchor, playhead_ts) {
            Some(s) => s,
            None => (0, 0),
        };
        let ghost after = with_item(before, seq, tb, item@, start, out);
        assert(after == with_items(
            start_graph,
            seq,
            tb,
            model.take(i + 1),
            anchor,
            playhead_ts,
        ));
        let list: NodeId = match track_list_of(g, seq, item.kind) {
            Some(list) => list,
            None => {
                proof {
                    lemma_error_stays(start_graph, seq, tb, model, anchor, playhead_ts, i + 1);
                }
                return Err(EditError::NoList);
            },
        };
        let count: usize = count_tracks(g, list);
        if count == 0 {
            proof {
                lemma_error_stays(start_graph, seq, tb, model, anchor, playhead_ts, i + 1);
            }
            return Err(EditError::NoPasteTrack);
        }
        let track_index: usize = if item.track_index < count {
            item.track_index
        } else {
            count - 1
        };
        let at: Rational = ts_to_rational(start, tb);
        let media_in: Rational = ts_to_rational(item.media_in_ts, tb);
        let length: Rational = match ts_to_rational(out, tb).checked_sub(at) {
            Some(length) => length,
            None => {
                proof {
                    lemma_error_stays(start_graph, seq, tb, model, anchor, playhead_ts, i + 1);
                }
                return Err(EditError::TimeOutOfRange);
            },
        };
        let label: String = footage_display_name(g, item.footage);
        let next: NodeId = g.slots.len() as u64;
        let core: Block = Block {
            in_point: Rational::zero(),
            out_point: length,
            media_in,
            track: None,
            speed_bits: item.speed_bits,
        };
        let clip: NodeId = new_clip(g, label, clip_color_index(next), core);
        if !g.is_valid(item.footage) {
            proof {
                lemma_error_stays(start_graph, seq, tb, model, anchor, playhead_ts, i + 1);
            }
            return Err(EditError::ConnectStale);
        }
        ids.push(clip);
        commands.push(Command::PlaceBlock { list, track_index: track_index as i32, block: clip, at });
        commands.push(Command::Connect { from: item.footage, to: clip, port: Port::Texture });
        i = i + 1;
    }
    assert(model.take(i as int) == model);
    link_group(items, &ids, &mut commands);
    Ok((ids, Edit { name: "Paste", commands }))
}

/// Among copies in the order of their starts, another goes behind those that
/// do not start after it, also those that start with it, and before those
/// that do.
pub proof fn lemma_slot(s: Seq<CopyModel>, x: CopyModel)
    requires
        forall|i: int, j: int| 0 <= i <= j < s.len() ==> s[i].start_ts <= s[j].start_ts,
    ensures
        0 <= slot_for(s, x) <= s.len(),
        forall|i: int| 0 <= i < slot_for(s, x) ==> (#[trigger] s[i]).start_ts <= x.start_ts,
        forall|i: int| slot_for(s, x) <= i < s.len() ==> x.start_ts < (#[trigger] s[i]).start_ts,
    decreases s.len(),
{
    if s.len() > 0 && !(s.last().start_ts <= x.start_ts) {
        let init = s.drop_last();
        lemma_slot(init, x);
        assert forall|i: int| 0 <= i < slot_for(s, x) implies (#[trigger] s[i]).start_ts
            <= x.start_ts by {
            assert(init[i] == s[i]);
        }
        assert forall|i: int| slot_for(s, x) <= i < s.len() implies x.start_ts < (
        #[trigger] s[i]).start_ts by {
            if i < init.len() {
                assert(init[i] == s[i]);
            }
        }
    }
}

/// Copied clips come out in the order of their starts.
pub proof fn lemma_copied_sorted(g: crate::graph::GraphModel, clips: Seq<NodeId>)
    requires
        copied_all(g, clips) is Ok,
    ensures
        forall|i: int, j: int|
            0 <= i <= j < copied_all(g, clips).unwrap().len() ==> copied_all(
                g,
                clips,
            ).unwrap()[i].start_ts <= copied_all(g, clips).unwrap()[j].start_ts,
    decreases clips.len(),
{
    if clips.len() > 0 {
        lemma_copied_sorted(g, clips.drop_last());
        if let Ok(Some(item)) = copied(g, clips.last()) {
            lemma_slot(copied_all(g, clips.drop_last()).unwrap(), item);
        }
    }
}

proof fn lemma_links_entered(
    g: crate::graph::GraphModel,
    s: Seq<CopyModel>,
    x: CopyModel,
)
    requires
        forall|i: int| 0 <= i < s.len() ==> (#[trigger] s[i]).links == g.links(s[i].clip),
        x.links == g.links(x.clip),
        0 <= slot_for(s, x) <= s.len(),
    ensures
        forall|i: int|
            0 <= i < entered_by_start(s, x).len() ==> (#[trigger] entered_by_start(
                s,
                x,
            )[i]).links == g.links(entered_by_start(s, x)[i].clip),
{
    let more = entered_by_start(s, x);
    let p = slot_for(s, x);
    assert forall|i: int| 0 <= i < more.len() implies (#[trigger] more[i]).links == g.links(
        more[i].clip,
    ) by {
        if i < p {
            assert(more[i] == s[i]);
        } else if i > p {
            assert(more[i] == s[i - 1]);
        }
    }
}

/// A copy records the links that its clip has, so two copies count as linked
/// exactly when one of their clips is linked to the other.
pub proof fn lemma_copied_links(g: crate::graph::GraphModel, clips: Seq<NodeId>)
    requires
        copied_all(g, clips) is Ok,
    ensures
        forall|i: int|
            0 <= i < copied_all(g, clips).unwrap().len() ==> (#[trigger] copied_all(
                g,
                clips,
            ).unwrap()[i]).links == g.links(copied_all(g, clips).unwrap()[i].clip),
        forall|i: int, j: int|
            0 <= i < copied_all(g, clips).unwrap().len() && 0 <= j < copied_all(
                g,
                clips,
            ).unwrap().len() ==> {
                let a = #[trigger] copied_all(g, clips).unwrap()[i];
                let b = #[trigger] copied_all(g, clips).unwrap()[j];
                were_linked(a, b) == (g.links(a.clip).contains(b.clip) || g.links(b.clip).contains(
                    a.clip,
                ))
            },
    decreases clips.len(),
{
    if clips.len() > 0 {
        lemma_copied_links(g, clips.drop_last());
        lemma_copied_sorted(g, clips.drop_last());
        if let Ok(Some(item)) = copied(g, clips.last()) {
            let done = copied_all(g, clips.drop_last()).unwrap();
            lemma_slot(done, item);
            lemma_links_entered(g, done, item);
        }
    }
}

/// Pasting keeps the offsets between the copied clips, and the first lands
/// on the playhead.
pub proof fn lemma_paste_keeps_offsets(
    a: CopyModel,
    b: CopyModel,
    anchor: CopyModel,
    playhead_ts: i64,
)
    requires
        pasted_span(a, anchor.start_ts, playhead_ts) is Some,
        pasted_span(b, anchor.start_ts, playhead_ts) is Some,
    ensures
        pasted_span(a, anchor.start_ts, playhead_ts).unwrap().0 - pasted_span(
            b,
            anchor.start_ts,
            playhead_ts,
        ).unwrap().0 == a.start_ts - b.start_ts,
        pasted_span(a, anchor.start_ts, playhead_ts).unwrap().1 - pasted_span(
            a,
            anchor.start_ts,
            playhead_ts,
        ).unwrap().0 == a.length_ts,
        a == anchor ==> pasted_span(a, anchor.start_ts, playhead_ts).unwrap().0 == playhead_ts,
{
}

/// A time on a frame is copied as that frame.
pub proof fn lemma_frame_is_copied(ts: i64, tb: (i64, i64))
    requires
        tb.0 > 0,
        tb.1 > 0,
        crate::rational::representable(ts * tb.0, tb.1 as int),
        copied_ts(crate::timebase::time_of(ts, tb), tb) is Some,
    ensures
        copied_ts(crate::timebase::time_of(ts, tb), tb) == Some(ts),
{
    let r = crate::timebase::time_of(ts, tb);
    crate::rational::lemma_reduced_value(ts * tb.0, tb.1 as int);
    let n = r.num * tb.1;
    let d = r.den * tb.0;
    assert(d > 0) by (nonlinear_arith)
        requires
            d == r.den * tb.0,
            r.den > 0,
            tb.0 > 0,
    ;
    assert(n == ts * d) by (nonlinear_arith)
        requires
            n == r.num * tb.1,
            d == r.den * tb.0,
            r.num * tb.1 == (ts * tb.0) * r.den,
    ;
    let m = crate::rational::magnitude(ts as int) as int;
    assert(crate::rational::magnitude(n) == m * d && (ts < 0 <==> n < 0)) by (nonlinear_arith)
        requires
            n == ts * d,
            d > 0,
            m == crate::rational::magnitude(ts as int) as int,
    ;
    assert((m * d) / d == m) by (nonlinear_arith)
        requires
            d > 0,
    ;
}

} // verus!
