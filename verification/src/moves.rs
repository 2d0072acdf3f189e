//! Moving clips along and across tracks, alone or with their links, and
//! removing them.

use crate::clip_edits::{block_span, row};
use crate::commands::{Command, Edit, Span};
use crate::errors::EditError;
use crate::graph::{Graph, NodeId};
use crate::queries::{clip_time_base, clip_track, list_time_base, track_behavior, track_time_base};
use crate::rational::Rational;
use crate::timebase::{rational_to_ts, ts_to_rational};
use vstd::prelude::*;

verus! {

/// The move of one clip within its track.
pub open spec fn move_step(g: crate::graph::GraphModel, clip: NodeId, new_in_ts: i64) -> Result<
    Command,
    EditError,
> {
    match g.track_of(clip) {
        None => Err(EditError::NotOnTrack),
        Some(track) => match g.list_of(track) {
            None => Err(EditError::NoClipList),
            Some(list) => match g.list_time_base(list) {
                None => Err(EditError::NoListRate),
                Some(tb) => Ok(
                    Command::MoveBlock {
                        list,
                        track_index: g.track(track).unwrap().index,
                        block: clip,
                        at: crate::timebase::time_of(new_in_ts, tb),
                    },
                ),
            },
        },
    }
}

fn move_clip_command(g: &Graph, clip: NodeId, new_in_ts: i64) -> (r: Result<Command, EditError>)
    ensures
        r == move_step(g@, clip, new_in_ts),
{
    let track: NodeId = match clip_track(g, clip) {
        Some(track) => track,
        None => return Err(EditError::NotOnTrack),
    };
    let t = match track_behavior(g, track) {
        Some(t) => t,
        None => return Err(EditError::NoClipList),
    };
    let list: NodeId = match t.track_list {
        Some(list) => list,
        None => return Err(EditError::NoClipList),
    };
    match list_time_base(g, list) {
        None => Err(EditError::NoListRate),
        Some(tb) => Ok(
            Command::MoveBlock {
                list,
                track_index: t.index,
                block: clip,
                at: ts_to_rational(new_in_ts, tb),
            },
        ),
    }
}

/// Frame 0 at the earliest.
pub open spec fn clamped_frame(ts: i64) -> i64 {
    if ts < 0 {
        0
    } else {
        ts
    }
}

fn clamp_frame(ts: i64) -> (r: i64)
    ensures
        r == clamped_frame(ts),
{
    if ts < 0 {
        0
    } else {
        ts
    }
}

/// Moves `clip` within its track so that its in point becomes `new_in_ts`
/// (frame 0 at the earliest), as one "Move Clip" row.
pub fn move_clip(g: &Graph, clip: NodeId, new_in_ts: i64) -> (r: Result<Option<Edit>, EditError>)
    ensures
        crate::clip_edits::is_row(
            r,
            match move_step(g@, clip, clamped_frame(new_in_ts)) {
                Err(e) => Err(e),
                Ok(command) => Ok(seq![command]),
            },
            "Move Clip"@,
        ),
{
    match move_clip_command(g, clip, clamp_frame(new_in_ts)) {
        Err(e) => Err(e),
        Ok(command) => {
            let mut commands: Vec<Command> = Vec::new();
            commands.push(command);
            assert(commands@ =~= seq![command]);
            Ok(row("Move Clip", commands))
        },
    }
}

/// The move of one clip to another track: the old spot becomes a gap, the
/// span is re-homed, and the clip is placed on the destination.
pub open spec fn rehome_steps(
    g: crate::graph::GraphModel,
    clip: NodeId,
    dest_track: NodeId,
    new_in_ts: i64,
) -> Result<Seq<Command>, EditError> {
    match g.track_of(clip) {
        None => Err(EditError::NotOnTrack),
        Some(source) => match g.list_of(dest_track) {
            None => Err(EditError::NoDestinationList),
            Some(list) => match g.list_time_base(list) {
                None => Err(EditError::NoListRate),
                Some(tb) => {
                    let at = crate::timebase::time_of(new_in_ts, tb);
                    let before = g.span(clip).unwrap();
                    match crate::spans::moved(before, at) {
                        None => Err(EditError::TimeOutOfRange),
                        Some(after) => Ok(
                            seq![
                                Command::ReplaceWithGap { track: source, block: clip },
                                Command::SetSpan { block: clip, before, after },
                                Command::PlaceBlock {
                                    list,
                                    track_index: g.track(dest_track).unwrap().index,
                                    block: clip,
                                    at,
                                },
                            ],
                        ),
                    }
                },
            },
        },
    }
}

fn move_clip_to_track_commands(
    g: &Graph,
    clip: NodeId,
    dest_track: NodeId,
    new_in_ts: i64,
) -> (r: Result<Vec<Command>, EditError>)
    ensures
        match rehome_steps(g@, clip, dest_track, new_in_ts) {
            Err(e) => r == Err::<Vec<Command>, EditError>(e),
            Ok(commands) => r is Ok && r.unwrap()@ == commands,
        },
{
    let source: NodeId = match clip_track(g, clip) {
        Some(track) => track,
        None => return Err(EditError::NotOnTrack),
    };
    let t = match track_behavior(g, dest_track) {
        Some(t) => t,
        None => return Err(EditError::NoDestinationList),
    };
    let list: NodeId = match t.track_list {
        Some(list) => list,
        None => return Err(EditError::NoDestinationList),
    };
    let tb: (i64, i64) = match list_time_base(g, list) {
        Some(tb) => tb,
        None => return Err(EditError::NoListRate),
    };
    let at: Rational = ts_to_rational(new_in_ts, tb);
    let before: Span = match block_span(g, clip) {
        Some(span) => span,
        None => return Err(EditError::NotAClip),
    };
    match before.move_to(at) {
        None => Err(EditError::TimeOutOfRange),
        Some(after) => {
            let mut commands: Vec<Command> = Vec::new();
            commands.push(Command::ReplaceWithGap { track: source, block: clip });
            commands.push(Command::SetSpan { block: clip, before, after });
            commands.push(
                Command::PlaceBlock { list, track_index: t.index, block: clip, at },
            );
            assert(commands@ =~= rehome_steps(g@, clip, dest_track, new_in_ts).unwrap());
            Ok(commands)
        },
    }
}

/// Moves `clip` to another track at `new_in_ts` (frame 0 at the earliest), as
/// one "Move Clip to Track" row.
pub fn move_clip_to_track(
    g: &Graph,
    clip: NodeId,
    dest_track: NodeId,
    new_in_ts: i64,
) -> (r: Result<Option<Edit>, EditError>)
    ensures
        crate::clip_edits::is_row(
            r,
            rehome_steps(g@, clip, dest_track, clamped_frame(new_in_ts)),
            "Move Clip to Track"@,
        ),
{
    match move_clip_to_track_commands(g, clip, dest_track, clamp_frame(new_in_ts)) {
        Err(e) => Err(e),
        Ok(commands) => Ok(row("Move Clip to Track", commands)),
    }
}

/// The clips that follow `clip`, with the frames they start at: the linked
/// clips other than itself that are on a track.
pub open spec fn followers(g: crate::graph::GraphModel, clip: NodeId, linked: Seq<NodeId>) -> Result<
    Seq<(NodeId, i64)>,
    EditError,
>
    decreases linked.len(),
{
    if linked.len() == 0 {
        Ok(Seq::empty())
    } else {
        let other = linked.last();
        match followers(g, clip, linked.drop_last()) {
            Err(e) => Err(e),
            Ok(done) => if other == clip || g.track_of(other) is None {
                Ok(done)
            } else {
                match g.clip_time_base(other) {
                    None => Err(EditError::NoLinkedRate),
                    Some(tb) => Ok(
                        done.push(
                            (
                                other,
                                crate::timebase::timestamp_of(
                                    g.span(other).unwrap().in_point,
                                    tb,
                                ),
                            ),
                        ),
                    ),
                }
            },
        }
    }
}

/// The earliest of `first` and the frames of `group`.
pub open spec fn earliest(first: i64, group: Seq<(NodeId, i64)>) -> i64
    decreases group.len(),
{
    if group.len() == 0 {
        first
    } else {
        let rest = earliest(first, group.drop_last());
        if group.last().1 < rest {
            group.last().1
        } else {
            rest
        }
    }
}

/// How far a group moves: as far as asked, but no clip before frame 0.
pub open spec fn group_delta(old_in_ts: i64, new_in_ts: i64, group: Seq<(NodeId, i64)>) -> int {
    let asked = new_in_ts - old_in_ts;
    let least = -earliest(old_in_ts, group);
    if asked < least {
        least
    } else {
        asked
    }
}

/// The moves of the followers, each by `delta`.
pub open spec fn follow_steps(
    g: crate::graph::GraphModel,
    group: Seq<(NodeId, i64)>,
    delta: int,
) -> Result<Seq<Command>, EditError>
    decreases group.len(),
{
    if group.len() == 0 {
        Ok(Seq::empty())
    } else {
        let (other, at) = group.last();
        match follow_steps(g, group.drop_last(), delta) {
            Err(e) => Err(e),
            Ok(done) => if !(i64::MIN <= at + delta <= i64::MAX) {
                Err(EditError::TimeOutOfRange)
            } else {
                match move_step(g, other, (at + delta) as i64) {
                    Err(e) => Err(e),
                    Ok(command) => Ok(done.push(command)),
                }
            },
        }
    }
}

/// What moving a clip with its links comes to.
pub open spec fn group_move_plan(
    g: crate::graph::GraphModel,
    clip: NodeId,
    dest_track: Option<NodeId>,
    new_in_ts: i64,
    linked: Seq<NodeId>,
) -> Result<Seq<Command>, EditError> {
    match g.clip_time_base(clip) {
        None => Err(EditError::NoClipRate),
        Some(tb) => {
            let old_in_ts = crate::timebase::timestamp_of(g.span(clip).unwrap().in_point, tb);
            match followers(g, clip, linked) {
                Err(e) => Err(e),
                Ok(group) => {
                    let delta = group_delta(old_in_ts, new_in_ts, group);
                    let target = old_in_ts + delta;
                    if !(i64::MIN <= new_in_ts - old_in_ts <= i64::MAX) || !(i64::MIN <= delta
                        <= i64::MAX) || !(i64::MIN <= target <= i64::MAX) {
                        Err(EditError::TimeOutOfRange)
                    } else {
                        let first: Result<Seq<Command>, EditError> = match dest_track {
                            Some(track) => rehome_steps(g, clip, track, target as i64),
                            None => match move_step(g, clip, target as i64) {
                                Err(e) => Err(e),
                                Ok(command) => Ok(seq![command]),
                            },
                        };
                        match first {
                            Err(e) => Err(e),
                            Ok(head) => match follow_steps(g, group, delta) {
                                Err(e) => Err(e),
                                Ok(tail) => Ok(head + tail),
                            },
                        }
                    }
                },
            }
        },
    }
}

proof fn lemma_followers_fail(
    g: crate::graph::GraphModel,
    clip: NodeId,
    linked: Seq<NodeId>,
    n: int,
    e: EditError,
)
    requires
        0 <= n <= linked.len(),
        followers(g, clip, linked.take(n)) == Err::<Seq<(NodeId, i64)>, EditError>(e),
    ensures
        followers(g, clip, linked) == Err::<Seq<(NodeId, i64)>, EditError>(e),
    decreases linked.len() - n,
{
    if n == linked.len() {
        assert(linked.take(n) == linked);
    } else {
        assert(linked.take(n + 1).drop_last() == linked.take(n));
        lemma_followers_fail(g, clip, linked, n + 1, e);
    }
}

fn collect_followers(g: &Graph, clip: NodeId, linked: &Vec<NodeId>) -> (r: Result<
    Vec<(NodeId, i64)>,
    EditError,
>)
    ensures
        match followers(g@, clip, linked@) {
            Err(e) => r == Err::<Vec<(NodeId, i64)>, EditError>(e),
            Ok(group) => r is Ok && r.unwrap()@ == group,
        },
{
    let mut group: Vec<(NodeId, i64)> = Vec::new();
    let mut i: usize = 0;
    while i < linked.len()
        invariant
            i <= linked.len(),
            followers(g@, clip, linked@.take(i as int)) == Ok::<Seq<(NodeId, i64)>, EditError>(
                group@,
            ),
        decreases linked.len() - i,
    {
        proof {
            assert(linked@.take(i + 1).drop_last() == linked@.take(i as int));
        }
        let other: NodeId = linked[i];
        if other != clip {
            if let Some(track) = clip_track(g, other) {
                let tb: (i64, i64) = match track_time_base(g, track) {
                    Some(tb) => tb,
                    None => {
                        proof {
                            lemma_followers_fail(
                                g@,
                                clip,
                                linked@,
                                i + 1,
                                EditError::NoLinkedRate,
                            );
                        }
                        return Err(EditError::NoLinkedRate);
                    },
                };
                if let Some(span) = block_span(g, other) {
                    group.push((other, rational_to_ts(span.in_point, tb)));
                }
            }
        }
        i = i + 1;
    }
    assert(linked@.take(i as int) == linked@);
    Ok(group)
}

fn earliest_of(first: i64, group: &Vec<(NodeId, i64)>) -> (r: i64)
    ensures
        r == earliest(first, group@),
{
    let mut r: i64 = first;
    let mut i: usize = 0;
    while i < group.len()
        invariant
            i <= group.len(),
            r == earliest(first, group@.take(i as int)),
        decreases group.len() - i,
    {
        proof {
            assert(group@.take(i + 1).drop_last() == group@.take(i as int));
        }
        if group[i].1 < r {
            r = group[i].1;
        }
        i = i + 1;
    }
    assert(group@.take(i as int) == group@);
    r
}

proof fn lemma_follow_fail(
    g: crate::graph::GraphModel,
    group: Seq<(NodeId, i64)>,
    delta: int,
    n: int,
    e: EditError,
)
    requires
        0 <= n <= group.len(),
        follow_steps(g, group.take(n), delta) == Err::<Seq<Command>, EditError>(e),
    ensures
        follow_steps(g, group, delta) == Err::<Seq<Command>, EditError>(e),
    decreases group.len() - n,
{
    if n == group.len() {
        assert(group.take(n) == group);
    } else {
        assert(group.take(n + 1).drop_last() == group.take(n));
        lemma_follow_fail(g, group, delta, n + 1, e);
    }
}

fn push_follow(g: &Graph, group: &Vec<(NodeId, i64)>, delta: i64, commands: &mut Vec<Command>) -> (r:
    Result<(), EditError>)
    ensures
        match follow_steps(g@, group@, delta as int) {
            Err(e) => r == Err::<(), EditError>(e),
            Ok(tail) => r is Ok && final(commands)@ == old(commands)@ + tail,
        },
{
    let ghost start = commands@;
    let mut i: usize = 0;
    proof {
        assert(group@.take(0) =~= Seq::empty());
        assert(start + Seq::<Command>::empty() =~= start);
    }
    while i < group.len()
        invariant
            i <= group.len(),
            follow_steps(g@, group@.take(i as int), delta as int) is Ok,
            commands@ == start + follow_steps(g@, group@.take(i as int), delta as int).unwrap(),
        decreases group.len() - i,
    {
        proof {
            assert(group@.take(i + 1).drop_last() == group@.take(i as int));
        }
        let (other, at) = group[i];
        let target: i64 = match at.checked_add(delta) {
            Some(target) => target,
            None => {
                proof {
                    lemma_follow_fail(
                        g@,
                        group@,
                        delta as int,
                        i + 1,
                        EditError::TimeOutOfRange,
                    );
                }
                return Err(EditError::TimeOutOfRange);
            },
        };
        match move_clip_command(g, other, target) {
            Err(e) => {
                proof {
                    lemma_follow_fail(g@, group@, delta as int, i + 1, e);
                }
                return Err(e);
            },
            Ok(command) => {
                commands.push(command);
            },
        }
        i = i + 1;
        assert(commands@ =~= start + follow_steps(
            g@,
            group@.take(i as int),
            delta as int,
        ).unwrap());
    }
    assert(group@.take(i as int) == group@);
    Ok(())
}

/// Moves `clip` to `new_in_ts`, to `dest_track` when the gesture crosses
/// tracks, while every linked clip follows by the same number of frames on
/// its own track, as one "Move Clip" row. A linked clip that is on no track
/// stays where it is. The group stops at frame 0.
pub fn move_clip_with_links(
    g: &Graph,
    clip: NodeId,
    dest_track: Option<NodeId>,
    new_in_ts: i64,
    linked: &Vec<NodeId>,
) -> (r: Result<Option<Edit>, EditError>)
    ensures
        crate::clip_edits::is_row(
            r,
            group_move_plan(g@, clip, dest_track, new_in_ts, linked@),
            "Move Clip"@,
        ),
{
    let tb: (i64, i64) = match clip_time_base(g, clip) {
        Some(tb) => tb,
        None => return Err(EditError::NoClipRate),
    };
    let span: Span = match block_span(g, clip) {
        Some(span) => span,
        None => return Err(EditError::NotAClip),
    };
    let old_in_ts: i64 = rational_to_ts(span.in_point, tb);
    let group: Vec<(NodeId, i64)> = match collect_followers(g, clip, linked) {
        Ok(group) => group,
        Err(e) => return Err(e),
    };
    let least: i128 = -(earliest_of(old_in_ts, &group) as i128);
    let asked: i128 = (new_in_ts as i128) - (old_in_ts as i128);
    let wide: i128 = if asked < least {
        least
    } else {
        asked
    };
    let limit: i128 = 0x7fff_ffff_ffff_ffff;
    let floor: i128 = -0x8000_0000_0000_0000;
    let sum: i128 = (old_in_ts as i128) + wide;
    if asked < floor || asked > limit || wide < floor || wide > limit || sum < floor || sum > limit {
        return Err(EditError::TimeOutOfRange);
    }
    let delta: i64 = wide as i64;
    let target: i64 = sum as i64;
    let mut commands: Vec<Command> = match dest_track {
        Some(track) => match move_clip_to_track_commands(g, clip, track, target) {
            Ok(commands) => commands,
            Err(e) => return Err(e),
        },
        None => {
            let mut one: Vec<Command> = Vec::new();
            match move_clip_command(g, clip, target) {
                Ok(command) => {
                    one.push(command);
                    assert(one@ =~= seq![command]);
                },
                Err(e) => return Err(e),
            }
            one
        },
    };
    match push_follow(g, &group, delta, &mut commands) {
        Err(e) => Err(e),
        Ok(_) => Ok(row("Move Clip", commands)),
    }
}

proof fn lemma_earliest(first: i64, group: Seq<(NodeId, i64)>)
    ensures
        earliest(first, group) <= first,
        forall|i: int| 0 <= i < group.len() ==> earliest(first, group) <= (#[trigger] group[i]).1,
    decreases group.len(),
{
    if group.len() > 0 {
        let init = group.drop_last();
        lemma_earliest(first, init);
        assert forall|i: int| 0 <= i < group.len() implies earliest(first, group) <= (
        #[trigger] group[i]).1 by {
            if i < init.len() {
                assert(init[i] == group[i]);
            }
        }
    }
}

/// A group that moves lands no clip before frame 0, and goes exactly as far
/// as asked when that takes no clip there; else it stops when its first clip
/// reaches frame 0. Every clip moves by the same number of frames, so the
/// group keeps its offsets.
pub proof fn lemma_group_clamp(old_in_ts: i64, new_in_ts: i64, group: Seq<(NodeId, i64)>)
    ensures
        old_in_ts + group_delta(old_in_ts, new_in_ts, group) >= 0,
        forall|i: int|
            0 <= i < group.len() ==> (#[trigger] group[i]).1 + group_delta(
                old_in_ts,
                new_in_ts,
                group,
            ) >= 0,
        (new_in_ts >= 0 && forall|i: int|
            0 <= i < group.len() ==> (#[trigger] group[i]).1 + (new_in_ts - old_in_ts) >= 0)
            ==> group_delta(old_in_ts, new_in_ts, group) == new_in_ts - old_in_ts,
        group_delta(old_in_ts, new_in_ts, group) != new_in_ts - old_in_ts ==> {
            ||| old_in_ts + group_delta(old_in_ts, new_in_ts, group) == 0
            ||| exists|i: int|
                0 <= i < group.len() && (#[trigger] group[i]).1 + group_delta(
                    old_in_ts,
                    new_in_ts,
                    group,
                ) == 0
        },
{
    lemma_earliest(old_in_ts, group);
    lemma_earliest_attained(old_in_ts, group);
}

proof fn lemma_earliest_attained(first: i64, group: Seq<(NodeId, i64)>)
    ensures
        earliest(first, group) == first || exists|i: int|
            0 <= i < group.len() && (#[trigger] group[i]).1 == earliest(first, group),
    decreases group.len(),
{
    if group.len() > 0 {
        let init = group.drop_last();
        lemma_earliest_attained(first, init);
        let rest = earliest(first, init);
        if group.last().1 < rest {
            assert(group[group.len() - 1].1 == earliest(first, group));
        } else if rest != first {
            let i = choose|i: int| 0 <= i < init.len() && (#[trigger] init[i]).1 == rest;
            assert(group[i].1 == earliest(first, group));
        }
    }
}

/// What deleting `clip` comes to: a gap where it is, and its node gone.
pub open spec fn delete_plan(g: crate::graph::GraphModel, clip: NodeId) -> Result<
    Seq<Command>,
    EditError,
> {
    match g.track_of(clip) {
        None => Err(EditError::NotOnTrack),
        Some(track) => Ok(
            seq![
                Command::ReplaceWithGap { track, block: clip },
                Command::RemoveNode { node: clip },
            ],
        ),
    }
}

/// What deleting `clip` and closing its span up comes to.
pub open spec fn ripple_delete_plan(g: crate::graph::GraphModel, clip: NodeId) -> Result<
    Seq<Command>,
    EditError,
> {
    match g.track_of(clip) {
        None => Err(EditError::NotOnTrack),
        Some(track) => Ok(
            seq![
                Command::RippleRemove {
                    track,
                    from: g.span(clip).unwrap().in_point,
                    to: g.span(clip).unwrap().out_point,
                },
            ],
        ),
    }
}

/// Deletes `clip`, leaving a gap, as one "Delete Clips" row.
pub fn delete_clip(g: &Graph, clip: NodeId) -> (r: Result<Option<Edit>, EditError>)
    ensures
        crate::clip_edits::is_row(r, delete_plan(g@, clip), "Delete Clips"@),
{
    match clip_track(g, clip) {
        None => Err(EditError::NotOnTrack),
        Some(track) => {
            let mut commands: Vec<Command> = Vec::new();
            commands.push(Command::ReplaceWithGap { track, block: clip });
            commands.push(Command::RemoveNode { node: clip });
            assert(commands@ =~= seq![
                Command::ReplaceWithGap { track, block: clip },
                Command::RemoveNode { node: clip },
            ]);
            Ok(row("Delete Clips", commands))
        },
    }
}

/// Deletes `clip` and closes the span up, as one "Ripple Delete Clip" row.
pub fn ripple_delete_clip(g: &Graph, clip: NodeId) -> (r: Result<Option<Edit>, EditError>)
    ensures
        crate::clip_edits::is_row(r, ripple_delete_plan(g@, clip), "Ripple Delete Clip"@),
{
    match (clip_track(g, clip), block_span(g, clip)) {
        (Some(track), Some(span)) => {
            let mut commands: Vec<Command> = Vec::new();
            commands.push(
                Command::RippleRemove { track, from: span.in_point, to: span.out_point },
            );
            assert(commands@ =~= seq![
                Command::RippleRemove { track, from: span.in_point, to: span.out_point },
            ]);
            Ok(row("Ripple Delete Clip", commands))
        },
        _ => Err(EditError::NotOnTrack),
    }
}

/// Removes `node` from the graph, as one "Remove Node" row.
pub fn remove_node(node: NodeId) -> (e: Edit)
    ensures
        e.name@ == "Remove Node"@,
        e.commands@ == seq![Command::RemoveNode { node }],
{
    let mut commands: Vec<Command> = Vec::new();
    commands.push(Command::RemoveNode { node });
    assert(commands@ =~= seq![Command::RemoveNode { node }]);
    Edit { name: "Remove Node", commands }
}

} // verus!
