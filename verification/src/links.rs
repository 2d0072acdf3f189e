//! Groups of linked clips.

use crate::commands::{Command, Edit, Port};
use crate::errors::EditError;
use crate::graph::{Graph, NodeId, TrackType};
use crate::list::contains;
use crate::placement::create_footage_clip;
use crate::queries::{footage_behavior, sequence_time_base, track_list_of};
use crate::rational::Rational;
use crate::timebase::ts_to_rational;
use vstd::prelude::*;

verus! {

/// The graph with `n` clips of `footage` added.
pub open spec fn with_clips(
    g: crate::graph::GraphModel,
    footage: NodeId,
    media_in: Rational,
    length: Rational,
    n: nat,
) -> crate::graph::GraphModel
    decreases n,
{
    if n == 0 {
        g
    } else {
        let done = with_clips(g, footage, media_in, length, (n - 1) as nat);
        done.appended(crate::placement::footage_clip(done, footage, media_in, length))
    }
}

/// The identities of the next `n` nodes.
pub open spec fn next_ids(g: crate::graph::GraphModel, n: nat) -> Seq<NodeId> {
    Seq::new(n, |i: int| (g.slots.len() + i) as u64)
}

/// The commands that place `clips` on `placements` and feed each from
/// `footage`; fails at the first kind that has no list.
pub open spec fn placements_commands(
    g: crate::graph::GraphModel,
    seq: NodeId,
    footage: NodeId,
    clips: Seq<NodeId>,
    placements: Seq<(TrackType, usize)>,
    at: Rational,
) -> Result<Seq<Command>, EditError>
    decreases placements.len(),
{
    if placements.len() == 0 {
        Ok(Seq::empty())
    } else {
        let (kind, track_index) = placements.last();
        let block = clips[placements.len() - 1];
        match placements_commands(g, seq, footage, clips, placements.drop_last(), at) {
            Err(e) => Err(e),
            Ok(done) => match g.track_list_of(seq, kind) {
                None => Err(EditError::NoList),
                Some(list) => Ok(
                    done.push(Command::PlaceBlock { list, track_index: track_index as i32, block, at }).push(
                        Command::Connect { from: footage, to: block, port: Port::Texture },
                    ),
                ),
            },
        }
    }
}

/// The links from `clips[i]` to the first `n` others.
pub open spec fn links_from(clips: Seq<NodeId>, i: int, n: nat) -> Seq<Command>
    decreases n,
{
    if n == 0 {
        Seq::empty()
    } else if n - 1 == i {
        links_from(clips, i, (n - 1) as nat)
    } else {
        links_from(clips, i, (n - 1) as nat).push(
            Command::AddLink { from: clips[i], to: clips[n - 1] },
        )
    }
}

/// The links from each of the first `n` clips to every other.
pub open spec fn group_links(clips: Seq<NodeId>, n: nat) -> Seq<Command>
    decreases n,
{
    if n == 0 {
        Seq::empty()
    } else {
        group_links(clips, (n - 1) as nat) + links_from(clips, n - 1, clips.len())
    }
}

/// What a linked placement comes to before any clip is created: the start,
/// the media in-point and the length every clip shares.
pub open spec fn group_plan(
    g: crate::graph::GraphModel,
    seq: NodeId,
    footage: NodeId,
    placements: Seq<(TrackType, usize)>,
    in_ts: i64,
    out_ts: i64,
    media_in_ts: i64,
) -> Result<(Rational, Rational, Rational), EditError> {
    if placements.len() < 2 {
        Err(EditError::OneTrack)
    } else if g.footage(footage) is None {
        Err(EditError::NoFootage)
    } else {
        match g.time_base(seq) {
            None => Err(EditError::NoRate),
            Some(tb) => match crate::placement::span_length(in_ts, out_ts, tb) {
                None => Err(EditError::TimeOutOfRange),
                Some(length) => Ok(
                    (
                        crate::timebase::time_of(in_ts, tb),
                        crate::timebase::time_of(media_in_ts, tb),
                        length,
                    ),
                ),
            },
        }
    }
}

proof fn lemma_with_clips_len(
    g: crate::graph::GraphModel,
    footage: NodeId,
    media_in: Rational,
    length: Rational,
    n: nat,
)
    ensures
        with_clips(g, footage, media_in, length, n).slots.len() == g.slots.len() + n,
    decreases n,
{
    if n > 0 {
        lemma_with_clips_len(g, footage, media_in, length, (n - 1) as nat);
    }
}

/// Places linked clips of one footage on several tracks, as one "Add Clip"
/// row. Every clip shares the timeline range and media in-point, and every
/// clip is linked to every other.
///
/// The clips enter the graph before their lists are looked up, so they stay
/// there when a kind without a list refuses the placement.
pub fn place_footage_clips_linked(
    g: &mut Graph,
    seq: NodeId,
    footage: NodeId,
    placements: &Vec<(TrackType, usize)>,
    in_ts: i64,
    out_ts: i64,
    media_in_ts: i64,
) -> (r: Result<(Vec<NodeId>, Edit), EditError>)
    ensures
        match group_plan(old(g)@, seq, footage, placements@, in_ts, out_ts, media_in_ts) {
            Err(e) => r == Err::<(Vec<NodeId>, Edit), EditError>(e) && final(g)@ == old(g)@,
            Ok((at, media_in, length)) => {
                let ids = next_ids(old(g)@, placements@.len());
                let after = with_clips(old(g)@, footage, media_in, length, placements@.len());
                &&& final(g)@ == after
                &&& match placements_commands(after, seq, footage, ids, placements@, at) {
                    Err(e) => r == Err::<(Vec<NodeId>, Edit), EditError>(e),
                    Ok(placed) => {
                        &&& r is Ok
                        &&& r.unwrap().0@ == ids
                        &&& r.unwrap().1.name@ == "Add Clip"@
                        &&& r.unwrap().1.commands@ == placed + group_links(ids, ids.len())
                    },
                }
            },
        },
{
    if placements.len() < 2 {
        return Err(EditError::OneTrack);
    }
    if footage_behavior(g, footage).is_none() {
        return Err(EditError::NoFootage);
    }
    let tb: (i64, i64) = match sequence_time_base(g, seq) {
        Some(tb) => tb,
        None => return Err(EditError::NoRate),
    };
    let at: Rational = ts_to_rational(in_ts, tb);
    let media_in: Rational = ts_to_rational(media_in_ts, tb);
    let length: Rational = match ts_to_rational(out_ts, tb).checked_sub(at) {
        Some(length) => length,
        None => return Err(EditError::TimeOutOfRange),
    };
    let ghost start = g@;
    let mut clips: Vec<NodeId> = Vec::new();
    let mut i: usize = 0;
    while i < placements.len()
        invariant
            i <= placements.len(),
            g@ == with_clips(start, footage, media_in, length, i as nat),
            clips@ =~= next_ids(start, i as nat),
        decreases placements.len() - i,
    {
        proof {
            lemma_with_clips_len(start, footage, media_in, length, i as nat);
        }
        let id: NodeId = create_footage_clip(g, footage, media_in, length);
        clips.push(id);
        i = i + 1;
    }
    let ghost ids = next_ids(start, placements@.len());
    let mut commands: Vec<Command> = Vec::new();
    let mut i: usize = 0;
    while i < placements.len()
        invariant
            i <= placements.len(),
            clips@ == ids,
            ids == next_ids(start, placements@.len()),
            start == old(g)@,
            g@ == with_clips(start, footage, media_in, length, placements@.len()),
            group_plan(start, seq, footage, placements@, in_ts, out_ts, media_in_ts) == Ok::<
                (Rational, Rational, Rational),
                EditError,
            >((at, media_in, length)),
            placements_commands(g@, seq, footage, ids, placements@.take(i as int), at) == Ok::<
                Seq<Command>,
                EditError,
            >(commands@),
        decreases placements.len() - i,
    {
        proof {
            assert(placements@.take(i + 1).drop_last() == placements@.take(i as int));
        }
        let (kind, track_index) = placements[i];
        let block: NodeId = clips[i];
        match track_list_of(g, seq, kind) {
            None => {
                proof {
                    lemma_placements_fail(g@, seq, footage, ids, placements@, at, i + 1);
                }
                return Err(EditError::NoList);
            },
            Some(list) => {
                commands.push(Command::PlaceBlock { list, track_index: track_index as i32, block, at });
                commands.push(
                    Command::Connect { from: footage, to: block, port: Port::Texture },
                );
            },
        }
        i = i + 1;
    }
    assert(placements@.take(i as int) == placements@);
    let ghost placed = commands@;
    proof {
        assert(placed + group_links(ids, 0) =~= placed);
    }
    let mut i: usize = 0;
    while i < clips.len()
        invariant
            i <= clips.len(),
            clips@ == ids,
            commands@ == placed + group_links(ids, i as nat),
        decreases clips.len() - i,
    {
        let ghost before = commands@;
        proof {
            assert(before + links_from(ids, i as int, 0) =~= before);
        }
        let mut j: usize = 0;
        while j < clips.len()
            invariant
                i < clips.len(),
                j <= clips.len(),
                clips@ == ids,
                commands@ == before + links_from(ids, i as int, j as nat),
            decreases clips.len() - j,
        {
            if j != i {
                commands.push(Command::AddLink { from: clips[i], to: clips[j] });
            }
            j = j + 1;
            assert(commands@ =~= before + links_from(ids, i as int, j as nat));
        }
        i = i + 1;
        assert(commands@ =~= placed + group_links(ids, i as nat));
    }
    Ok((clips, Edit { name: "Add Clip", commands }))
}

proof fn lemma_placements_fail(
    g: crate::graph::GraphModel,
    seq: NodeId,
    footage: NodeId,
    clips: Seq<NodeId>,
    placements: Seq<(TrackType, usize)>,
    at: Rational,
    n: int,
)
    requires
        0 <= n <= placements.len(),
        placements_commands(g, seq, footage, clips, placements.take(n), at) == Err::<
            Seq<Command>,
            EditError,
        >(EditError::NoList),
    ensures
        placements_commands(g, seq, footage, clips, placements, at) == Err::<
            Seq<Command>,
            EditError,
        >(EditError::NoList),
    decreases placements.len() - n,
{
    if n == placements.len() {
        assert(placements.take(n) == placements);
    } else {
        assert(placements.take(n + 1).drop_last() == placements.take(n));
        lemma_placements_fail(g, seq, footage, clips, placements, at, n + 1);
    }
}

/// Linking or unlinking a set of clips, as one row of the undo history.
#[derive(Debug)]
pub struct LinkEdit {
    pub name: &'static str,
    pub blocks: Vec<NodeId>,
    pub before: Vec<(NodeId, NodeId)>,
    pub after: Vec<(NodeId, NodeId)>,
}

/// The pairs of `blocks[i]` with the ones behind it, up to index `n`.
pub open spec fn pairs_with(blocks: Seq<NodeId>, i: int, n: int) -> Seq<(NodeId, NodeId)>
    decreases n - i,
{
    if n <= i + 1 {
        Seq::empty()
    } else {
        pairs_with(blocks, i, n - 1).push((blocks[i], blocks[n - 1]))
    }
}

/// The pairs of the first `n` blocks with the ones behind them.
pub open spec fn pairs_upto(blocks: Seq<NodeId>, n: nat) -> Seq<(NodeId, NodeId)>
    decreases n,
{
    if n == 0 {
        Seq::empty()
    } else {
        pairs_upto(blocks, (n - 1) as nat) + pairs_with(blocks, n - 1, blocks.len() as int)
    }
}

/// Every pair of `blocks`.
pub open spec fn all_pairs(blocks: Seq<NodeId>) -> Seq<(NodeId, NodeId)> {
    pairs_upto(blocks, blocks.len())
}

/// The linked ones among `pairs`.
pub open spec fn linked_among(
    g: crate::graph::GraphModel,
    pairs: Seq<(NodeId, NodeId)>,
) -> Seq<(NodeId, NodeId)>
    decreases pairs.len(),
{
    if pairs.len() == 0 {
        Seq::empty()
    } else if g.links(pairs.last().0).contains(pairs.last().1) {
        linked_among(g, pairs.drop_last()).push(pairs.last())
    } else {
        linked_among(g, pairs.drop_last())
    }
}

/// The graph with every pair unlinked, both ways.
pub open spec fn unlinked(
    g: crate::graph::GraphModel,
    pairs: Seq<(NodeId, NodeId)>,
) -> crate::graph::GraphModel
    decreases pairs.len(),
{
    if pairs.len() == 0 {
        g
    } else {
        let (a, b) = pairs.last();
        unlinked(g, pairs.drop_last()).without_link(a, b).without_link(b, a)
    }
}

/// The graph with every pair linked, both ways.
pub open spec fn linked(
    g: crate::graph::GraphModel,
    pairs: Seq<(NodeId, NodeId)>,
) -> crate::graph::GraphModel
    decreases pairs.len(),
{
    if pairs.len() == 0 {
        g
    } else {
        let (a, b) = pairs.last();
        linked(g, pairs.drop_last()).with_link(a, b).with_link(b, a)
    }
}

/// The graph in which the links among `blocks` are exactly `target`.
pub open spec fn relinked(
    g: crate::graph::GraphModel,
    blocks: Seq<NodeId>,
    target: Seq<(NodeId, NodeId)>,
) -> crate::graph::GraphModel {
    linked(unlinked(g, all_pairs(blocks)), target)
}

/// Every pair of `blocks`, the earlier one first.
fn pairs_of(blocks: &Vec<NodeId>) -> (r: Vec<(NodeId, NodeId)>)
    ensures
        r@ == all_pairs(blocks@),
{
    let mut r: Vec<(NodeId, NodeId)> = Vec::new();
    let mut i: usize = 0;
    while i < blocks.len()
        invariant
            i <= blocks.len(),
            r@ == pairs_upto(blocks@, i as nat),
        decreases blocks.len() - i,
    {
        let ghost before = r@;
        proof {
            assert(before + pairs_with(blocks@, i as int, i + 1) =~= before);
        }
        let mut j: usize = i + 1;
        while j < blocks.len()
            invariant
                i < j <= blocks.len(),
                r@ == before + pairs_with(blocks@, i as int, j as int),
            decreases blocks.len() - j,
        {
            r.push((blocks[i], blocks[j]));
            j = j + 1;
            assert(r@ =~= before + pairs_with(blocks@, i as int, j as int));
        }
        i = i + 1;
    }
    r
}

fn relink(g: &mut Graph, blocks: &Vec<NodeId>, target: &Vec<(NodeId, NodeId)>)
    ensures
        final(g)@ == relinked(old(g)@, blocks@, target@),
{
    let pairs: Vec<(NodeId, NodeId)> = pairs_of(blocks);
    let ghost start = g@;
    let mut i: usize = 0;
    while i < pairs.len()
        invariant
            i <= pairs.len(),
            g@ == unlinked(start, pairs@.take(i as int)),
        decreases pairs.len() - i,
    {
        proof {
            assert(pairs@.take(i + 1).drop_last() == pairs@.take(i as int));
        }
        let (a, b) = pairs[i];
        g.remove_link(a, b);
        g.remove_link(b, a);
        i = i + 1;
    }
    assert(pairs@.take(i as int) == pairs@);
    let ghost cleared = g@;
    let mut i: usize = 0;
    while i < target.len()
        invariant
            i <= target.len(),
            g@ == linked(cleared, target@.take(i as int)),
        decreases target.len() - i,
    {
        proof {
            assert(target@.take(i + 1).drop_last() == target@.take(i as int));
        }
        let (a, b) = target[i];
        g.add_link(a, b);
        g.add_link(b, a);
        i = i + 1;
    }
    assert(target@.take(i as int) == target@);
}

impl LinkEdit {
    /// Carries the edit out.
    pub fn redo(&self, g: &mut Graph)
        ensures
            final(g)@ == relinked(old(g)@, self.blocks@, self.after@),
    {
        relink(g, &self.blocks, &self.after);
    }

    /// Takes the edit back.
    pub fn undo(&self, g: &mut Graph)
        ensures
            final(g)@ == relinked(old(g)@, self.blocks@, self.before@),
    {
        relink(g, &self.blocks, &self.before);
    }
}

/// Links or unlinks a set of clips: linking connects every pair of the set,
/// unlinking clears every link among them. The undo restores the links among
/// the set; links to nodes outside it are not touched. Fewer than two clips
/// make no row.
pub fn set_clips_linked(g: &Graph, blocks: &Vec<NodeId>, link: bool) -> (r: Option<LinkEdit>)
    ensures
        blocks@.len() < 2 ==> r is None,
        blocks@.len() >= 2 ==> {
            &&& r is Some
            &&& r.unwrap().name@ == (if link {
                "Link Clips"@
            } else {
                "Unlink Clips"@
            })
            &&& r.unwrap().blocks@ == blocks@
            &&& r.unwrap().before@ == linked_among(g@, all_pairs(blocks@))
            &&& r.unwrap().after@ == (if link {
                all_pairs(blocks@)
            } else {
                Seq::empty()
            })
        },
{
    if blocks.len() < 2 {
        return None;
    }
    let pairs: Vec<(NodeId, NodeId)> = pairs_of(blocks);
    let mut before: Vec<(NodeId, NodeId)> = Vec::new();
    let mut i: usize = 0;
    while i < pairs.len()
        invariant
            i <= pairs.len(),
            before@ == linked_among(g@, pairs@.take(i as int)),
        decreases pairs.len() - i,
    {
        proof {
            assert(pairs@.take(i + 1).drop_last() == pairs@.take(i as int));
        }
        let (a, b) = pairs[i];
        if contains(&g.links_of(a), b) {
            before.push((a, b));
        }
        i = i + 1;
    }
    assert(pairs@.take(i as int) == pairs@);
    let after: Vec<(NodeId, NodeId)> = if link {
        pairs
    } else {
        Vec::new()
    };
    Some(
        LinkEdit {
            name: if link {
                "Link Clips"
            } else {
                "Unlink Clips"
            },
            blocks: crate::list::copy_of(blocks),
            before,
            after,
        },
    )
}

} // verus!
