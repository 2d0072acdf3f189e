//! Where moved clips arrive: the track, and the frame.

use crate::commands::{Command, Span};
use crate::errors::EditError;
use crate::graph::NodeId;
use crate::rational::Rational;
use vstd::prelude::*;

verus! {

/// Whether the track at `track` stands in the list at `list` at the index it
/// carries.
pub open spec fn stands_in(g: crate::graph::GraphModel, track: NodeId, list: NodeId) -> bool {
    &&& g.track(track) is Some
    &&& g.track_list(list) is Some
    &&& g.track(track).unwrap().track_list == Some(list)
    &&& 0 <= g.track(track).unwrap().index < g.track_list(list).unwrap().tracks.len()
    &&& g.track_list(list).unwrap().tracks[g.track(track).unwrap().index as int] == track
}

/// Whether `command` moves the block at `clip` along the track it is on to
/// `at`: the list and the index the command carries lead to that track.
pub open spec fn moves_along(
    g: crate::graph::GraphModel,
    command: Command,
    clip: NodeId,
    at: Rational,
) -> bool {
    &&& command is MoveBlock
    &&& command->MoveBlock_block == clip
    &&& command->MoveBlock_at == at
    &&& g.track_list(command->MoveBlock_list) is Some
    &&& 0 <= command->MoveBlock_track_index < g.track_list(
        command->MoveBlock_list,
    ).unwrap().tracks.len()
    &&& g.track_of(clip) == Some(
        g.track_list(
            command->MoveBlock_list,
        ).unwrap().tracks[command->MoveBlock_track_index as int],
    )
}

/// A clip moved along its track stays on that track and arrives where the
/// frame starts.
pub proof fn lemma_move_lands(
    g: crate::graph::GraphModel,
    clip: NodeId,
    frame: i64,
    track: NodeId,
    list: NodeId,
    tb: (i64, i64),
    t: Rational,
)
    requires
        g.track_of(clip) == Some(track),
        stands_in(g, track, list),
        g.list_time_base(list) == Some(tb),
        crate::measures::frame_at(t, frame as int, tb),
    ensures
        crate::moves::move_step(g, clip, frame) is Ok,
        moves_along(g, crate::moves::move_step(g, clip, frame).unwrap(), clip, t),
{
    crate::measures::lemma_frame_at(t, frame, tb);
}

/// A move along the track is refused when the clip is on no track, when the
/// track is in no list, and when the list's sequence has no frame rate; and
/// only then.
pub proof fn lemma_move_refused(g: crate::graph::GraphModel, clip: NodeId, frame: i64)
    ensures
        ({
            let r = crate::moves::move_step(g, clip, frame);
            let track = g.track_of(clip).unwrap();
            let list = g.track(track).unwrap().track_list.unwrap();
            if g.track_of(clip) is None {
                r == Err::<Command, EditError>(EditError::NotOnTrack)
            } else if g.track(track) is None || g.track(track).unwrap().track_list is None {
                r == Err::<Command, EditError>(EditError::NoClipList)
            } else if g.list_time_base(list) is None {
                r == Err::<Command, EditError>(EditError::NoListRate)
            } else {
                r is Ok
            }
        }),
{
}

/// No frame before 0 is moved to, and any other frame is kept.
pub proof fn lemma_clamped(frame: i64)
    ensures
        crate::moves::clamped_frame(frame) >= 0,
        frame >= 0 ==> crate::moves::clamped_frame(frame) == frame,
        frame < 0 ==> crate::moves::clamped_frame(frame) == 0,
{
}

/// Whether `commands` take the block at `clip` off its track and set it on
/// the track at `dest` at `at`, as long as it was and on the same media.
pub open spec fn moves_across(
    g: crate::graph::GraphModel,
    commands: Seq<Command>,
    clip: NodeId,
    dest: NodeId,
    at: Rational,
) -> bool {
    let s = g.span(clip).unwrap();
    &&& commands.len() == 3
    &&& commands[0] is ReplaceWithGap
    &&& g.track_of(clip) == Some(commands[0]->ReplaceWithGap_track)
    &&& commands[0]->ReplaceWithGap_block == clip
    &&& commands[1] is SetSpan
    &&& commands[1]->SetSpan_block == clip
    &&& commands[1]->SetSpan_before == s
    &&& commands[1]->SetSpan_after.in_point == at
    &&& commands[1]->SetSpan_after.media_in == s.media_in
    &&& forall|length: Rational|
        #![trigger crate::measures::later_by(s.in_point, s.out_point, length)]
        crate::measures::later_by(s.in_point, s.out_point, length)
            ==> crate::measures::later_by(at, commands[1]->SetSpan_after.out_point, length)
    &&& commands[2] is PlaceBlock
    &&& commands[2]->PlaceBlock_block == clip
    &&& commands[2]->PlaceBlock_at == at
    &&& g.track_list(commands[2]->PlaceBlock_list) is Some
    &&& 0 <= commands[2]->PlaceBlock_track_index < g.track_list(
        commands[2]->PlaceBlock_list,
    ).unwrap().tracks.len()
    &&& g.track_list(
        commands[2]->PlaceBlock_list,
    ).unwrap().tracks[commands[2]->PlaceBlock_track_index as int] == dest
}

/// A clip moved to another track leaves a gap behind, keeps its length and
/// its media, and arrives on the destination where the frame starts.
pub proof fn lemma_rehome_lands(
    g: crate::graph::GraphModel,
    clip: NodeId,
    dest: NodeId,
    frame: i64,
    list: NodeId,
    tb: (i64, i64),
    t: Rational,
)
    requires
        g.track_of(clip) is Some,
        crate::edit_outcomes::defined(g.span(clip).unwrap()),
        stands_in(g, dest, list),
        g.list_time_base(list) == Some(tb),
        crate::measures::frame_at(t, frame as int, tb),
        crate::moves::rehome_steps(g, clip, dest, frame) is Ok,
    ensures
        moves_across(g, crate::moves::rehome_steps(g, clip, dest, frame).unwrap(), clip, dest, t),
{
    crate::measures::lemma_frame_at(t, frame, tb);
    let s = g.span(clip).unwrap();
    let kept = crate::spans::length_of(s).unwrap();
    crate::measures::lemma_difference_is_way(s.out_point, s.in_point, kept);
    assert forall|length: Rational|
        #![trigger crate::measures::later_by(s.in_point, s.out_point, length)]
        crate::measures::later_by(
            s.in_point,
            s.out_point,
            length,
        ) implies crate::measures::later_by(
        t,
        crate::rational::sum_of(t, kept).unwrap(),
        length,
    ) by {
        crate::measures::lemma_same_length(s.in_point, s.out_point, kept, length, t);
    }
}

/// A move to another track is refused when the clip is on no track, when the
/// destination is in no list or its sequence has no frame rate; and else only
/// when the clip has no 64-bit length or no 64-bit end.
pub proof fn lemma_rehome_refused(
    g: crate::graph::GraphModel,
    clip: NodeId,
    dest: NodeId,
    frame: i64,
    t: Rational,
    length: Rational,
    end: Rational,
)
    ensures
        ({
            let r = crate::moves::rehome_steps(g, clip, dest, frame);
            let list = g.track(dest).unwrap().track_list.unwrap();
            let tb = g.list_time_base(list).unwrap();
            let s = g.span(clip).unwrap();
            if g.track_of(clip) is None {
                r == Err::<Seq<Command>, EditError>(EditError::NotOnTrack)
            } else if g.track(dest) is None || g.track(dest).unwrap().track_list is None {
                r == Err::<Seq<Command>, EditError>(EditError::NoDestinationList)
            } else if g.list_time_base(list) is None {
                r == Err::<Seq<Command>, EditError>(EditError::NoListRate)
            } else {
                &&& r is Err ==> r == Err::<Seq<Command>, EditError>(EditError::TimeOutOfRange)
                &&& crate::measures::frame_at(t, frame as int, tb) && crate::measures::later_by(
                    s.in_point,
                    s.out_point,
                    length,
                ) && crate::measures::later_by(t, end, length) ==> r is Ok
            }
        }),
{
    let s = g.span(clip).unwrap();
    let tb = g.list_time_base(g.track(dest).unwrap().track_list.unwrap()).unwrap();
    if crate::measures::frame_at(t, frame as int, tb) && crate::measures::later_by(
        s.in_point,
        s.out_point,
        length,
    ) && crate::measures::later_by(t, end, length) {
        crate::measures::lemma_frame_at(t, frame, tb);
        crate::measures::lemma_difference_is_way(s.out_point, s.in_point, length);
        crate::measures::lemma_sum_is_later(t, length, end);
        let d = crate::spans::length_of(s).unwrap();
        let (dn, dd) = (d.num as int, d.den as int);
        let (ln, ld) = (length.num as int, length.den as int);
        let (en, ed) = (end.num as int, end.den as int);
        let (tn, td) = (t.num as int, t.den as int);
        assert((en * td - tn * ed) * dd == dn * (td * ed)) by (nonlinear_arith)
            requires
                (en * td - tn * ed) * ld == ln * (td * ed),
                dn * ld == ln * dd,
                ld > 0,
        ;
        crate::measures::lemma_sum_is_later(t, d, end);
    }
}

/// Whether `other` follows the clip at `clip`.
pub open spec fn follows(g: crate::graph::GraphModel, clip: NodeId, other: NodeId) -> bool {
    other != clip && g.track_of(other) is Some
}

/// The group that moves with a clip holds every linked clip that is on a
/// track, in their order and each with the frame it starts at, and neither
/// the clip itself nor anything else.
pub proof fn lemma_followers(g: crate::graph::GraphModel, clip: NodeId, linked: Seq<NodeId>)
    requires
        crate::moves::followers(g, clip, linked) is Ok,
    ensures
        ({
            let group = crate::moves::followers(g, clip, linked).unwrap();
            let ids = linked.filter(|o: NodeId| follows(g, clip, o));
            &&& group.len() == ids.len()
            &&& forall|k: int|
                0 <= k < group.len() ==> (#[trigger] group[k]).0 == ids[k] && follows(
                    g,
                    clip,
                    group[k].0,
                ) && g.clip_time_base(group[k].0) is Some
            &&& forall|k: int, frame: i64|
                #![trigger crate::measures::on_frame(
                    g.span(group[k].0).unwrap().in_point,
                    frame as int,
                    g.clip_time_base(group[k].0).unwrap(),
                )]
                0 <= k < group.len() && g.clip_time_base(group[k].0).unwrap().0 > 0
                    && crate::measures::on_frame(
                    g.span(group[k].0).unwrap().in_point,
                    frame as int,
                    g.clip_time_base(group[k].0).unwrap(),
                ) ==> group[k].1 == frame
        }),
    decreases linked.len(),
{
    let pred = |o: NodeId| follows(g, clip, o);
    reveal_with_fuel(Seq::filter, 2);
    if linked.len() > 0 {
        lemma_followers(g, clip, linked.drop_last());
        let rest = crate::moves::followers(g, clip, linked.drop_last()).unwrap();
        let group = crate::moves::followers(g, clip, linked).unwrap();
        let other = linked.last();
        assert forall|k: int, frame: i64|
            #![trigger crate::measures::on_frame(
                g.span(group[k].0).unwrap().in_point,
                frame as int,
                g.clip_time_base(group[k].0).unwrap(),
            )]
            0 <= k < group.len() && g.clip_time_base(group[k].0).unwrap().0 > 0
                && crate::measures::on_frame(
                g.span(group[k].0).unwrap().in_point,
                frame as int,
                g.clip_time_base(group[k].0).unwrap(),
            ) implies group[k].1 == frame by {
            if k < rest.len() {
                assert(group[k] == rest[k]);
            } else {
                crate::measures::lemma_frame_read_back(
                    g.span(other).unwrap().in_point,
                    frame,
                    g.clip_time_base(other).unwrap(),
                );
            }
        }
    }
}

proof fn lemma_follow_steps(
    g: crate::graph::GraphModel,
    group: Seq<(NodeId, i64)>,
    delta: int,
)
    requires
        crate::moves::follow_steps(g, group, delta) is Ok,
    ensures
        crate::moves::follow_steps(g, group, delta).unwrap().len() == group.len(),
        forall|k: int|
            0 <= k < group.len() ==> {
                &&& i64::MIN <= (#[trigger] group[k]).1 + delta <= i64::MAX
                &&& crate::moves::move_step(
                    g,
                    group[k].0,
                    (group[k].1 + delta) as i64,
                ) == Ok::<Command, EditError>(
                    crate::moves::follow_steps(g, group, delta).unwrap()[k],
                )
            },
    decreases group.len(),
{
    if group.len() > 0 {
        lemma_follow_steps(g, group.drop_last(), delta);
        let rest = crate::moves::follow_steps(g, group.drop_last(), delta).unwrap();
        assert forall|k: int| 0 <= k < group.len() implies {
            &&& i64::MIN <= (#[trigger] group[k]).1 + delta <= i64::MAX
            &&& crate::moves::move_step(g, group[k].0, (group[k].1 + delta) as i64) == Ok::<
                Command,
                EditError,
            >(crate::moves::follow_steps(g, group, delta).unwrap()[k])
        } by {
            if k < rest.len() {
                assert(group.drop_last()[k] == group[k]);
            }
        }
    }
}

/// A clip that starts on a frame and moves with its links lands on the frame
/// asked for, or where the group stops; every follower moves along its own
/// track by as many frames as the clip.
pub proof fn lemma_group_lands(
    g: crate::graph::GraphModel,
    clip: NodeId,
    dest: Option<NodeId>,
    frame: i64,
    linked: Seq<NodeId>,
    tb: (i64, i64),
    start: i64,
)
    requires
        g.clip_time_base(clip) == Some(tb),
        tb.0 > 0,
        crate::measures::on_frame(g.span(clip).unwrap().in_point, start as int, tb),
        crate::moves::group_move_plan(g, clip, dest, frame, linked) is Ok,
    ensures
        crate::moves::followers(g, clip, linked) is Ok,
        ({
            let commands = crate::moves::group_move_plan(g, clip, dest, frame, linked).unwrap();
            let group = crate::moves::followers(g, clip, linked).unwrap();
            let delta = crate::moves::group_delta(start, frame, group);
            let h: int = if dest is Some {
                3
            } else {
                1
            };
            &&& commands.len() == h + group.len()
            &&& i64::MIN <= start + delta <= i64::MAX
            &&& dest is None ==> crate::moves::move_step(g, clip, (start + delta) as i64) == Ok::<
                Command,
                EditError,
            >(commands[0])
            &&& dest is Some ==> crate::moves::rehome_steps(
                g,
                clip,
                dest.unwrap(),
                (start + delta) as i64,
            ) == Ok::<Seq<Command>, EditError>(commands.take(3))
            &&& forall|k: int|
                0 <= k < group.len() ==> {
                    &&& i64::MIN <= (#[trigger] group[k]).1 + delta <= i64::MAX
                    &&& crate::moves::move_step(g, group[k].0, (group[k].1 + delta) as i64) == Ok::<
                        Command,
                        EditError,
                    >(commands[h + k])
                }
        }),
{
    crate::measures::lemma_frame_read_back(g.span(clip).unwrap().in_point, start, tb);
    let group = crate::moves::followers(g, clip, linked).unwrap();
    let delta = crate::moves::group_delta(start, frame, group);
    lemma_follow_steps(g, group, delta);
    let commands = crate::moves::group_move_plan(g, clip, dest, frame, linked).unwrap();
    if dest is Some {
        assert(commands.take(3) =~= crate::moves::rehome_steps(
            g,
            clip,
            dest.unwrap(),
            (start + delta) as i64,
        ).unwrap());
    }
}

/// Deleting a clip puts a gap in its place on the track it is on and removes
/// its node after that; a clip on no track is refused.
pub proof fn lemma_deleted(g: crate::graph::GraphModel, clip: NodeId, core: crate::graph::Block)
    requires
        g.block(clip) == Some(core),
    ensures
        ({
            let plan = crate::moves::delete_plan(g, clip);
            &&& core.track is None ==> plan == Err::<Seq<Command>, EditError>(EditError::NotOnTrack)
            &&& core.track matches Some(track) ==> {
                &&& plan is Ok
                &&& plan.unwrap().len() == 2
                &&& plan.unwrap()[0] is ReplaceWithGap
                &&& plan.unwrap()[0]->ReplaceWithGap_track == track
                &&& plan.unwrap()[0]->ReplaceWithGap_block == clip
                &&& plan.unwrap()[1] is RemoveNode
                &&& plan.unwrap()[1]->RemoveNode_node == clip
            }
        }),
{
}

/// Deleting a clip with a ripple takes just the span of the clip out of its
/// track: from where the clip starts, as long as the clip.
pub proof fn lemma_ripple_deleted(
    g: crate::graph::GraphModel,
    clip: NodeId,
    core: crate::graph::Block,
    length: Rational,
)
    requires
        g.block(clip) == Some(core),
        crate::measures::later_by(core.out_point, core.in_point, length),
    ensures
        ({
            let plan = crate::moves::ripple_delete_plan(g, clip);
            &&& core.track is None ==> plan == Err::<Seq<Command>, EditError>(EditError::NotOnTrack)
            &&& core.track matches Some(track) ==> {
                &&& plan is Ok
                &&& plan.unwrap().len() == 1
                &&& plan.unwrap()[0] is RippleRemove
                &&& plan.unwrap()[0]->RippleRemove_track == track
                &&& plan.unwrap()[0]->RippleRemove_from == core.in_point
                &&& crate::measures::later_by(
                    plan.unwrap()[0]->RippleRemove_to,
                    plan.unwrap()[0]->RippleRemove_from,
                    length,
                )
            }
        }),
{
}

/// What is not a block is on no track, and is not deleted.
pub proof fn lemma_delete_refused(g: crate::graph::GraphModel, clip: NodeId)
    requires
        g.block(clip) is None,
    ensures
        crate::moves::delete_plan(g, clip) == Err::<Seq<Command>, EditError>(EditError::NotOnTrack),
        crate::moves::ripple_delete_plan(g, clip) == Err::<Seq<Command>, EditError>(
            EditError::NotOnTrack,
        ),
{
}

} // verus!
