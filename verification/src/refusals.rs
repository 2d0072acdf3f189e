//! When edits are refused, and what is then said.

use crate::commands::Command;
use crate::errors::EditError;
use crate::graph::NodeId;
use crate::rational::Rational;
use vstd::prelude::*;

verus! {

/// Without a frame rate there is no frame to edit at: the edits of a clip are
/// refused, a trim once its range is one.
pub proof fn lemma_edits_need_a_rate(
    g: crate::graph::GraphModel,
    clip: NodeId,
    other: NodeId,
    track: NodeId,
    frame: i64,
    end: i64,
    start_edge: bool,
    dest: Option<NodeId>,
    linked: Seq<NodeId>,
)
    requires
        g.clip_time_base(clip) is None,
    ensures
        crate::clip_edits::split_plan(g, clip, frame) == Err::<Seq<Command>, EditError>(
            EditError::NoClipRate,
        ),
        0 <= frame < end ==> crate::clip_edits::trim_plan(g, clip, frame, end) == Err::<
            Seq<Command>,
            EditError,
        >(EditError::NoClipRate),
        crate::clip_edits::ripple_plan(g, clip, start_edge, frame) == Err::<
            Seq<Command>,
            EditError,
        >(EditError::NoClipRate),
        crate::clip_edits::roll_plan(g, track, clip, other, frame) == Err::<
            Seq<Command>,
            EditError,
        >(EditError::NoClipRate),
        crate::clip_edits::slide_plan(g, clip, frame) == Err::<Seq<Command>, EditError>(
            EditError::NoClipRate,
        ),
        crate::clip_edits::slip_plan(g, clip, frame) == Err::<Seq<Command>, EditError>(
            EditError::NoClipRate,
        ),
        crate::moves::group_move_plan(g, clip, dest, frame, linked) == Err::<
            Seq<Command>,
            EditError,
        >(EditError::NoClipRate),
{
}

/// A roll needs a block on the other side, and a ripple and a slide a clip
/// that its track lists.
pub proof fn lemma_edits_need_blocks(
    g: crate::graph::GraphModel,
    clip: NodeId,
    other: NodeId,
    track: NodeId,
    frame: i64,
    start_edge: bool,
)
    requires
        g.clip_time_base(clip) is Some,
    ensures
        g.block(other) is None ==> crate::clip_edits::roll_plan(g, track, clip, other, frame)
            == Err::<Seq<Command>, EditError>(EditError::NotAClipB),
        !g.track(g.track_of(clip).unwrap()).unwrap().blocks.contains(clip) ==> {
            &&& crate::clip_edits::ripple_plan(g, clip, start_edge, frame) == Err::<
                Seq<Command>,
                EditError,
            >(EditError::NotOnItsTrack)
            &&& crate::clip_edits::slide_plan(g, clip, frame) == Err::<Seq<Command>, EditError>(
                EditError::NotOnItsTrack,
            )
        },
{
    crate::list::lemma_position(g.track(g.track_of(clip).unwrap()).unwrap().blocks, clip);
}

/// Whether a span can be moved by `way`: its new ends are 64-bit times.
pub open spec fn can_move(s: crate::commands::Span, way: Rational) -> bool {
    crate::rational::sum_of(s.in_point, way) matches Some(t) && crate::spans::moved(s, t) is Some
}

/// Shifting blocks succeeds when each of them can be moved.
pub proof fn lemma_shifts_succeed(
    g: crate::graph::GraphModel,
    blocks: Seq<NodeId>,
    delta: Rational,
)
    requires
        forall|k: int|
            0 <= k < blocks.len() && g.span(#[trigger] blocks[k]) is Some ==> can_move(
                g.span(blocks[k]).unwrap(),
                delta,
            ),
    ensures
        crate::clip_edits::shifts(g, blocks, delta) is Some,
    decreases blocks.len(),
{
    if blocks.len() > 0 {
        let init = blocks.drop_last();
        assert forall|k: int| 0 <= k < init.len() && g.span(#[trigger] init[k]) is Some implies
            can_move(g.span(init[k]).unwrap(), delta) by {
            assert(init[k] == blocks[k]);
        }
        lemma_shifts_succeed(g, init, delta);
        assert(blocks[blocks.len() - 1] == blocks.last());
    }
}

/// A ripple trim goes through when the clip can be trimmed to the frame and
/// every block behind it can be moved as far.
pub proof fn lemma_ripple_succeeds(
    g: crate::graph::GraphModel,
    clip: NodeId,
    start_edge: bool,
    frame: i64,
    tb: (i64, i64),
    t: Rational,
    i: int,
)
    requires
        g.clip_time_base(clip) == Some(tb),
        crate::measures::frame_at(t, frame as int, tb),
        g.track(g.track_of(clip).unwrap()).unwrap().blocks.no_duplicates(),
        0 <= i < g.track(g.track_of(clip).unwrap()).unwrap().blocks.len(),
        g.track(g.track_of(clip).unwrap()).unwrap().blocks[i] == clip,
        ({
            let s = g.span(clip).unwrap();
            let edge = if start_edge {
                s.in_point
            } else {
                s.out_point
            };
            let length = if start_edge {
                crate::rational::difference_of(s.out_point, t)
            } else {
                crate::rational::difference_of(t, s.in_point)
            };
            let way = crate::rational::difference_of(t, edge);
            &&& length is Some
            &&& way is Some
            &&& start_edge ==> crate::spans::head_trimmed(s, length.unwrap()) is Some
            &&& !start_edge ==> crate::spans::resized(s, length.unwrap()) is Some
            &&& forall|k: int|
                i < k < g.track(g.track_of(clip).unwrap()).unwrap().blocks.len() && g.span(
                    #[trigger] g.track(g.track_of(clip).unwrap()).unwrap().blocks[k],
                ) is Some ==> can_move(
                    g.span(g.track(g.track_of(clip).unwrap()).unwrap().blocks[k]).unwrap(),
                    way.unwrap(),
                )
        }),
    ensures
        crate::clip_edits::ripple_plan(g, clip, start_edge, frame) is Ok,
{
    crate::measures::lemma_frame_at(t, frame, tb);
    let blocks = g.track(g.track_of(clip).unwrap()).unwrap().blocks;
    assert(blocks.contains(blocks[i]));
    crate::list::lemma_position(blocks, clip);
    let s = g.span(clip).unwrap();
    let (length, delta) = crate::clip_edits::ripple_amounts(s, start_edge, t).unwrap();
    let behind = blocks.subrange(i + 1, blocks.len() as int);
    assert forall|k: int| 0 <= k < behind.len() && g.span(#[trigger] behind[k]) is Some implies
        can_move(g.span(behind[k]).unwrap(), delta) by {
        assert(behind[k] == blocks[i + 1 + k]);
    }
    lemma_shifts_succeed(g, behind, delta);
}

/// A slide is refused for nothing but times beyond 64 bits: of a clip without
/// neighbours it goes through whenever the clip can be moved.
pub proof fn lemma_slide_succeeds(
    g: crate::graph::GraphModel,
    clip: NodeId,
    frame: i64,
    tb: (i64, i64),
    t: Rational,
    i: int,
)
    requires
        g.clip_time_base(clip) == Some(tb),
        0 <= frame,
        crate::measures::frame_at(t, frame as int, tb),
        g.track(g.track_of(clip).unwrap()).unwrap().blocks.no_duplicates(),
        0 <= i < g.track(g.track_of(clip).unwrap()).unwrap().blocks.len(),
        g.track(g.track_of(clip).unwrap()).unwrap().blocks[i] == clip,
        crate::rational::difference_of(t, g.span(clip).unwrap().in_point) is Some,
        crate::spans::moved(g.span(clip).unwrap(), t) is Some,
    ensures
        ({
            let plan = crate::clip_edits::slide_plan(g, clip, frame);
            let blocks = g.track(g.track_of(clip).unwrap()).unwrap().blocks;
            &&& plan is Err ==> plan->Err_0 == EditError::TimeOutOfRange
            &&& blocks.len() == 1 ==> plan is Ok
            &&& (i > 0 ==> g.span(blocks[i - 1]) is None) && (i + 1 < blocks.len() ==> g.span(
                blocks[i + 1],
            ) is None) ==> plan is Ok
        }),
{
    crate::measures::lemma_frame_at(t, frame, tb);
    let blocks = g.track(g.track_of(clip).unwrap()).unwrap().blocks;
    assert(blocks.contains(blocks[i]));
    crate::list::lemma_position(blocks, clip);
}

/// The neighbours of a sliding clip give way whenever their new ends are
/// 64-bit times, and at once when they would collapse or are no blocks.
pub proof fn lemma_neighbours_give(
    g: crate::graph::GraphModel,
    block: NodeId,
    new: Rational,
    delta: Rational,
)
    ensures
        crate::clip_edits::left_slide(g, None, new, delta) matches Some(c) && c.len() == 0,
        crate::clip_edits::right_slide(g, None, new, delta) matches Some(c) && c.len() == 0,
        g.span(block) is None ==> {
            &&& crate::clip_edits::left_slide(g, Some(block), new, delta) matches Some(c) && c.len()
                == 0
            &&& crate::clip_edits::right_slide(g, Some(block), new, delta) matches Some(c)
                && c.len() == 0
        },
        g.span(block) matches Some(s) ==> {
            let length = crate::rational::difference_of(s.out_point, s.in_point);
            let longer = crate::rational::sum_of(length.unwrap(), delta);
            let shorter = crate::rational::difference_of(length.unwrap(), delta);
            &&& length is Some && longer is Some && crate::spans::resized(
                s,
                longer.unwrap(),
            ) is Some ==> crate::clip_edits::left_slide(g, Some(block), new, delta) is Some
            &&& length is Some && shorter is Some && crate::spans::head_trimmed(
                s,
                shorter.unwrap(),
            ) is Some ==> crate::clip_edits::right_slide(g, Some(block), new, delta) is Some
        },
{
}

/// The clips that follow are refused exactly when one of them has no frame
/// rate.
pub proof fn lemma_followers_refused(g: crate::graph::GraphModel, clip: NodeId, linked: Seq<NodeId>)
    ensures
        ({
            let r = crate::moves::followers(g, clip, linked);
            &&& r is Ok <==> forall|k: int|
                0 <= k < linked.len() && crate::move_outcomes::follows(
                    g,
                    clip,
                    #[trigger] linked[k],
                ) ==> g.clip_time_base(linked[k]) is Some
            &&& r is Err ==> r->Err_0 == EditError::NoLinkedRate
        }),
    decreases linked.len(),
{
    if linked.len() > 0 {
        let init = linked.drop_last();
        lemma_followers_refused(g, clip, init);
        assert(linked[linked.len() - 1] == linked.last());
        if crate::moves::followers(g, clip, init) is Err {
            let k = choose|k: int|
                0 <= k < init.len() && crate::move_outcomes::follows(g, clip, #[trigger] init[k])
                    && g.clip_time_base(init[k]) is None;
            assert(linked[k] == init[k]);
        } else {
            if crate::moves::followers(g, clip, linked) is Ok {
                assert forall|k: int|
                    0 <= k < linked.len() && crate::move_outcomes::follows(
                        g,
                        clip,
                        #[trigger] linked[k],
                    ) implies g.clip_time_base(linked[k]) is Some by {
                    if k < init.len() {
                        assert(init[k] == linked[k]);
                    }
                }
            }
        }
    }
}

/// The followers' moves go through when each of them does and no frame leaves
/// 64 bits.
pub proof fn lemma_follow_succeeds(
    g: crate::graph::GraphModel,
    group: Seq<(NodeId, i64)>,
    delta: int,
)
    requires
        forall|k: int|
            0 <= k < group.len() ==> i64::MIN <= (#[trigger] group[k]).1 + delta <= i64::MAX
                && crate::moves::move_step(g, group[k].0, (group[k].1 + delta) as i64) is Ok,
    ensures
        crate::moves::follow_steps(g, group, delta) is Ok,
    decreases group.len(),
{
    if group.len() > 0 {
        let init = group.drop_last();
        assert forall|k: int| 0 <= k < init.len() implies i64::MIN <= (#[trigger] init[k]).1 + delta
            <= i64::MAX && crate::moves::move_step(
            g,
            init[k].0,
            (init[k].1 + delta) as i64,
        ) is Ok by {
            assert(init[k] == group[k]);
        }
        lemma_follow_succeeds(g, init, delta);
        assert(group[group.len() - 1] == group.last());
    }
}

/// A move with links goes through when the clip's own move does, every
/// follower's does, and no frame leaves 64 bits.
pub proof fn lemma_group_succeeds(
    g: crate::graph::GraphModel,
    clip: NodeId,
    dest: Option<NodeId>,
    frame: i64,
    linked: Seq<NodeId>,
    tb: (i64, i64),
    start: i64,
)
    requires
        g.clip_time_base(clip) == Some(tb),
        tb.0 > 0,
        crate::measures::on_frame(g.span(clip).unwrap().in_point, start as int, tb),
        crate::moves::followers(g, clip, linked) is Ok,
        ({
            let group = crate::moves::followers(g, clip, linked).unwrap();
            let delta = crate::moves::group_delta(start, frame, group);
            &&& i64::MIN <= frame - start <= i64::MAX
            &&& i64::MIN <= delta <= i64::MAX
            &&& i64::MIN <= start + delta <= i64::MAX
            &&& dest is None ==> crate::moves::move_step(g, clip, (start + delta) as i64) is Ok
            &&& dest is Some ==> crate::moves::rehome_steps(
                g,
                clip,
                dest.unwrap(),
                (start + delta) as i64,
            ) is Ok
            &&& forall|k: int|
                0 <= k < group.len() ==> i64::MIN <= (#[trigger] group[k]).1 + delta <= i64::MAX
                    && crate::moves::move_step(g, group[k].0, (group[k].1 + delta) as i64) is Ok
        }),
    ensures
        crate::moves::group_move_plan(g, clip, dest, frame, linked) is Ok,
{
    crate::measures::lemma_frame_read_back(g.span(clip).unwrap().in_point, start, tb);
    let group = crate::moves::followers(g, clip, linked).unwrap();
    lemma_follow_succeeds(g, group, crate::moves::group_delta(start, frame, group));
}

/// The texts that refusals are reported with.
pub proof fn lemma_refusal_texts(index: usize, count: usize, time: i64)
    ensures
        crate::errors::message_text(EditError::TimeOutOfRange)
            == "the time is out of range"@,
        crate::errors::message_text(EditError::ClipRange)
            == "invalid clip range (need 0 <= in < out and media_in >= 0)"@,
        crate::errors::message_text(EditError::SpanRange)
            == "invalid clip range (need 0 <= in < out)"@,
        crate::errors::message_text(EditError::AdjustmentRange)
            == "invalid adjustment layer range (need 0 <= in < out)"@,
        crate::errors::message_text(EditError::TrimRange)
            == "invalid trim range (need 0 <= new_in < new_out)"@,
        crate::errors::message_text(EditError::TrackKind)
            == "clips are only supported on video and audio tracks"@,
        crate::errors::message_text(EditError::AdjustmentKind)
            == "adjustment layers are only supported on video tracks"@,
        crate::errors::message_text(EditError::NoFootage)
            == "the footage node is not in the project"@,
        crate::errors::message_text(EditError::NoTextEntry)
            == "the text entry is not in the project"@,
        crate::errors::message_text(EditError::NoGenerator)
            == "the generator node is not in the project"@,
        crate::errors::message_text(EditError::NoSourceSequence)
            == "the source sequence is not in the project"@,
        crate::errors::message_text(EditError::NoRate)
            == "sequence has no valid frame rate"@,
        crate::errors::message_text(EditError::NoHostRate)
            == "host sequence has no valid frame rate"@,
        crate::errors::message_text(EditError::NoClipRate)
            == "the clip's sequence has no valid frame rate"@,
        crate::errors::message_text(EditError::NoListRate)
            == "the sequence has no valid frame rate"@,
        crate::errors::message_text(EditError::NoLinkedRate)
            == "a linked clip's sequence has no valid frame rate"@,
        crate::errors::message_text(EditError::NoList)
            == "sequence has no track list for this type"@,
        crate::errors::message_text(EditError::NoHostList)
            == "host sequence has no video track list"@,
        crate::errors::message_text(EditError::TrackNotInProject)
            == "the track is not in the project"@,
        crate::errors::message_text(EditError::TrackWithoutList)
            == "the track is not in a track list"@,
        crate::errors::message_text(EditError::TrackNotInList)
            == "the track is not in its list"@,
        crate::errors::message_text(EditError::OneTrack)
            == "linked placement needs at least two tracks"@,
        crate::errors::message_text(EditError::NotAClip)
            == "the node is not a clip"@,
        crate::errors::message_text(EditError::NotAClipA)
            == "node a is not a clip"@,
        crate::errors::message_text(EditError::NotAClipB)
            == "node b is not a clip"@,
        crate::errors::message_text(EditError::NotOnTrack)
            == "the clip is not on a track"@,
        crate::errors::message_text(EditError::NotOnItsTrack)
            == "the clip is not on its track"@,
        crate::errors::message_text(EditError::NoClipList)
            == "the clip's track has no list"@,
        crate::errors::message_text(EditError::NoDestinationList)
            == "the destination track has no list"@,
        crate::errors::message_text(EditError::NoBoundary)
            == "roll edit: the clips do not share a boundary"@,
        crate::errors::message_text(EditError::BoundaryEscapes)
            == "roll edit: boundary would escape the adjacent clips"@,
        crate::errors::message_text(EditError::TransitionLength)
            == "transition: the length must be positive"@,
        crate::errors::message_text(EditError::OutgoingNotAClip)
            == "transition: the outgoing block is not a clip"@,
        crate::errors::message_text(EditError::IncomingNotAClip)
            == "transition: the incoming block is not a clip"@,
        crate::errors::message_text(EditError::NotContiguous)
            == "transition: the clips are not contiguous at the seam"@,
        crate::errors::message_text(EditError::OutgoingNotOnTrack)
            == "transition: the outgoing clip is not on a track"@,
        crate::errors::message_text(EditError::DifferentTracks)
            == "transition: the clips are not on the same track"@,
        crate::errors::message_text(EditError::TransitionTrack)
            == "transition: the track is not in the project"@,
        crate::errors::message_text(EditError::NotAdjacent)
            == "transition: the clips are not adjacent on the track"@,
        crate::errors::message_text(EditError::SeamTaken)
            == "transition: the seam already carries a transition"@,
        crate::errors::message_text(EditError::EdgeNotAClip)
            == "transition: the block is not a clip"@,
        crate::errors::message_text(EditError::EdgeNotOnTrack)
            == "transition: the clip is not on a track"@,
        crate::errors::message_text(EditError::EdgeNotListed)
            == "transition: the clip is not on the track"@,
        crate::errors::message_text(EditError::EdgeTaken)
            == "transition: the edge already carries a transition"@,
        crate::errors::message_text(EditError::NoSequence)
            == "transition: the sequence is not in the project"@,
        crate::errors::message_text(EditError::NothingToBuild)
            == "transition: no seam or clip edge accepts a transition"@,
        crate::errors::message_text(EditError::NoTransition)
            == "transition: the clip has no transition on that edge"@,
        crate::errors::message_text(EditError::FlagOfNonTrack)
            == "set track flag: the node is not a track"@,
        crate::errors::message_text(EditError::ClipboardEmpty)
            == "the clipboard is empty"@,
        crate::errors::message_text(EditError::NoPasteTrack)
            == "no track of the clip's kind to paste onto"@,
        crate::errors::message_text(EditError::NoRoot)
            == "the project has no root folder"@,
        crate::errors::message_text(EditError::SequenceGone)
            == "sequence no longer exists"@,
        crate::errors::message_text(EditError::NotASequence)
            == "entry is not a sequence"@,
        crate::errors::message_text(EditError::ConnectStale)
            == "connect: node not found"@,
        crate::errors::message_text(EditError::NoAddedTrack)
            == "add track command produced no track"@,
        crate::errors::message_text(EditError::NoAddedList)
            == "add track command produced no track list"@,
        crate::errors::message_text(EditError::MarkerTaken)
            == "a marker already exists at that time"@,
        crate::errors::message_text(EditError::NoMarker)
            == "no marker at that time"@,
        crate::errors::message_text(EditError::TrackIndex { index, count }) == "track index "@
            + crate::text::decimal_text(index as nat) + " out of range ("@
            + crate::text::decimal_text(count as nat) + " tracks)"@,
        crate::errors::message_text(EditError::SplitTime { time }) == "split time "@
            + crate::text::signed_text(time as int) + " is not strictly inside the clip"@,
{
}

} // verus!
