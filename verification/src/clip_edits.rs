//! Editing clips in place: split, trim, ripple, roll, slide and slip.

use crate::commands::{Command, Edit, Span};
use crate::errors::EditError;
use crate::graph::{Graph, NodeId};
use crate::list::position;
use crate::queries::{block_core_of, clip_time_base, clip_track, track_behavior};
use crate::rational::Rational;
use crate::timebase::{rational_to_ts, ts_to_rational};
use vstd::prelude::*;

verus! {

/// Whether `r` is the row that `plan` describes: its error, nothing when it
/// has no commands, else one row of that name.
pub open spec fn is_row(
    r: Result<Option<Edit>, EditError>,
    plan: Result<Seq<Command>, EditError>,
    name: Seq<char>,
) -> bool {
    match plan {
        Err(e) => r == Err::<Option<Edit>, EditError>(e),
        Ok(commands) => {
            &&& r is Ok
            &&& commands.len() == 0 ==> r.unwrap() is None
            &&& commands.len() > 0 ==> {
                &&& r.unwrap() is Some
                &&& r.unwrap().unwrap().name@ == name
                &&& r.unwrap().unwrap().commands@ == commands
            }
        },
    }
}

/// One row of the undo history, or nothing without commands.
pub(crate) fn row(name: &'static str, commands: Vec<Command>) -> (r: Option<Edit>)
    ensures
        commands@.len() == 0 ==> r is None,
        commands@.len() > 0 ==> r is Some && r.unwrap().name@ == name@ && r.unwrap().commands@
            == commands@,
{
    if commands.len() == 0 {
        None
    } else {
        Some(Edit { name, commands })
    }
}

impl crate::graph::GraphModel {
    /// The span of the block at `id`.
    pub open spec fn span(self, id: NodeId) -> Option<Span> {
        match self.block(id) {
            Some(core) => Some(crate::commands::span_of(core)),
            None => None,
        }
    }
}

/// The span of the block at `id`.
pub(crate) fn block_span(g: &Graph, id: NodeId) -> (r: Option<Span>)
    ensures
        r == g@.span(id),
{
    match block_core_of(g, id) {
        Some(core) => Some(
            Span {
                in_point: core.in_point,
                out_point: core.out_point,
                media_in: core.media_in,
            },
        ),
        None => None,
    }
}

/// What splitting a clip comes to: the time must lie strictly inside it.
pub open spec fn split_plan(g: crate::graph::GraphModel, clip: NodeId, time_ts: i64) -> Result<
    Seq<Command>,
    EditError,
> {
    match g.clip_time_base(clip) {
        None => Err(EditError::NoClipRate),
        Some(tb) => {
            let span = g.span(clip).unwrap();
            let at = crate::timebase::time_of(time_ts, tb);
            if crate::rational::before(span.in_point, at) && crate::rational::before(
                at,
                span.out_point,
            ) {
                Ok(seq![Command::Split { block: clip, at }])
            } else {
                Err(EditError::SplitTime { time: time_ts })
            }
        },
    }
}

/// Splits `clip` at a frame strictly inside it, as one "Split Clip" row.
pub fn split_clip(g: &Graph, clip: NodeId, time_ts: i64) -> (r: Result<Option<Edit>, EditError>)
    ensures
        is_row(r, split_plan(g@, clip, time_ts), "Split Clip"@),
{
    let tb: (i64, i64) = match clip_time_base(g, clip) {
        Some(tb) => tb,
        None => return Err(EditError::NoClipRate),
    };
    let span: Span = match block_span(g, clip) {
        Some(span) => span,
        None => return Err(EditError::NotAClip),
    };
    let at: Rational = ts_to_rational(time_ts, tb);
    if span.in_point.is_before(at) && at.is_before(span.out_point) {
        let mut commands: Vec<Command> = Vec::new();
        commands.push(Command::Split { block: clip, at });
        assert(commands@ =~= seq![Command::Split { block: clip, at }]);
        Ok(row("Split Clip", commands))
    } else {
        Err(EditError::SplitTime { time: time_ts })
    }
}

/// Splitting several clips at one time, linked pairs staying linked on both
/// sides; the host carries it out as one "Split Clips" row.
#[derive(Debug)]
pub struct LinkedSplit {
    pub blocks: Vec<NodeId>,
    pub at: Rational,
}

/// Splits every clip of `blocks` at `time_ts`, counted in the frames of the
/// first clip's sequence. No clips make no row.
pub fn split_clips_preserving_links(g: &Graph, blocks: &Vec<NodeId>, time_ts: i64) -> (r: Result<
    Option<LinkedSplit>,
    EditError,
>)
    ensures
        if blocks@.len() == 0 {
            r == Ok::<Option<LinkedSplit>, EditError>(None)
        } else {
            match g@.clip_time_base(blocks@[0]) {
                None => r == Err::<Option<LinkedSplit>, EditError>(EditError::NoClipRate),
                Some(tb) => {
                    &&& r is Ok
                    &&& r.unwrap() is Some
                    &&& r.unwrap().unwrap().blocks@ == blocks@
                    &&& r.unwrap().unwrap().at == crate::timebase::time_of(time_ts, tb)
                },
            }
        },
{
    if blocks.len() == 0 {
        return Ok(None);
    }
    match clip_time_base(g, blocks[0]) {
        None => Err(EditError::NoClipRate),
        Some(tb) => Ok(
            Some(
                LinkedSplit {
                    blocks: crate::list::copy_of(blocks),
                    at: ts_to_rational(time_ts, tb),
                },
            ),
        ),
    }
}

/// The span with its length changed: at the in point when the out point is
/// anchored, else at the out point.
pub open spec fn trimmed(span: Span, out_anchored: bool, length: Rational) -> Option<Span> {
    if out_anchored {
        crate::spans::head_trimmed(span, length)
    } else {
        crate::spans::resized(span, length)
    }
}

/// The command that changes the length of the block at `clip`, whose span is
/// `span`; `None` when a time leaves the 64-bit range.
pub fn trim_command(clip: NodeId, span: Span, out_anchored: bool, length: Rational) -> (r: Option<
    Command,
>)
    ensures
        r == (match trimmed(span, out_anchored, length) {
            Some(after) => Some(Command::SetSpan { block: clip, before: span, after }),
            None => None,
        }),
{
    let after: Option<Span> = if out_anchored {
        span.set_length_keeping_out(length)
    } else {
        span.set_length_and_media_out(length)
    };
    match after {
        Some(after) => Some(Command::SetSpan { block: clip, before: span, after }),
        None => None,
    }
}

/// What trimming the in point to `new_in` comes to: nothing when it is there
/// already. Gives the span that results.
pub open spec fn in_trim(clip: NodeId, span: Span, new_in: Rational) -> Option<
    (Seq<Command>, Span),
> {
    if crate::rational::same_time(new_in, span.in_point) {
        Some((Seq::empty(), span))
    } else {
        match crate::rational::difference_of(span.out_point, new_in) {
            None => None,
            Some(length) => match trimmed(span, true, length) {
                None => None,
                Some(after) => Some(
                    (seq![Command::SetSpan { block: clip, before: span, after }], after),
                ),
            },
        }
    }
}

/// What trimming the out point of a span that starts at `new_in` to
/// `new_out` comes to: nothing when it is there already.
pub open spec fn out_trim(clip: NodeId, span: Span, new_in: Rational, new_out: Rational) -> Option<
    Seq<Command>,
> {
    if crate::rational::same_time(new_out, span.out_point) {
        Some(Seq::empty())
    } else {
        match crate::rational::difference_of(new_out, new_in) {
            None => None,
            Some(length) => match trimmed(span, false, length) {
                None => None,
                Some(after) => Some(seq![Command::SetSpan { block: clip, before: span, after }]),
            },
        }
    }
}

/// What trimming a clip comes to: the in point first, then the out point.
pub open spec fn trim_plan(
    g: crate::graph::GraphModel,
    clip: NodeId,
    new_in_ts: i64,
    new_out_ts: i64,
) -> Result<Seq<Command>, EditError> {
    if new_in_ts < 0 || new_out_ts <= new_in_ts {
        Err(EditError::TrimRange)
    } else {
        match g.clip_time_base(clip) {
            None => Err(EditError::NoClipRate),
            Some(tb) => {
                let span = g.span(clip).unwrap();
                let new_in = crate::timebase::time_of(new_in_ts, tb);
                let new_out = crate::timebase::time_of(new_out_ts, tb);
                if new_in_ts == crate::timebase::timestamp_of(span.in_point, tb) && new_out_ts
                    == crate::timebase::timestamp_of(span.out_point, tb) {
                    Ok(Seq::empty())
                } else {
                    match in_trim(clip, span, new_in) {
                        None => Err(EditError::TimeOutOfRange),
                        Some((head, after)) => match out_trim(clip, after, new_in, new_out) {
                            None => Err(EditError::TimeOutOfRange),
                            Some(tail) => Ok(head + tail),
                        },
                    }
                }
            },
        }
    }
}

/// Trims `clip` to `[new_in_ts, new_out_ts)`, as one "Trim Clip" row: the
/// trim of the in point keeps the out point and shifts the media window, the
/// trim of the out point keeps the in point and the media window.
pub fn trim_clip(g: &Graph, clip: NodeId, new_in_ts: i64, new_out_ts: i64) -> (r: Result<
    Option<Edit>,
    EditError,
>)
    ensures
        is_row(r, trim_plan(g@, clip, new_in_ts, new_out_ts), "Trim Clip"@),
{
    if new_in_ts < 0 || new_out_ts <= new_in_ts {
        return Err(EditError::TrimRange);
    }
    let tb: (i64, i64) = match clip_time_base(g, clip) {
        Some(tb) => tb,
        None => return Err(EditError::NoClipRate),
    };
    let span: Span = match block_span(g, clip) {
        Some(span) => span,
        None => return Err(EditError::NotAClip),
    };
    if new_in_ts == rational_to_ts(span.in_point, tb) && new_out_ts == rational_to_ts(
        span.out_point,
        tb,
    ) {
        return Ok(None);
    }
    let new_in: Rational = ts_to_rational(new_in_ts, tb);
    let new_out: Rational = ts_to_rational(new_out_ts, tb);
    let mut commands: Vec<Command> = Vec::new();
    let mut current: Span = span;
    if !new_in.same(span.in_point) {
        let length: Rational = match span.out_point.checked_sub(new_in) {
            Some(length) => length,
            None => return Err(EditError::TimeOutOfRange),
        };
        match span.set_length_keeping_out(length) {
            None => return Err(EditError::TimeOutOfRange),
            Some(after) => {
                commands.push(Command::SetSpan { block: clip, before: span, after });
                current = after;
            },
        }
    }
    let ghost head = commands@;
    assert(in_trim(clip, span, new_in) == Some((head, current))) by {
        assert(head =~= in_trim(clip, span, new_in).unwrap().0);
    }
    if !new_out.same(current.out_point) {
        let length: Rational = match new_out.checked_sub(new_in) {
            Some(length) => length,
            None => return Err(EditError::TimeOutOfRange),
        };
        match trim_command(clip, current, false, length) {
            None => return Err(EditError::TimeOutOfRange),
            Some(command) => {
                commands.push(command);
            },
        }
    }
    assert(commands@ =~= head + out_trim(clip, current, new_in, new_out).unwrap());
    Ok(row("Trim Clip", commands))
}

/// The commands that shift `blocks` by `delta`; entries that are no block
/// are passed over.
pub open spec fn shifts(
    g: crate::graph::GraphModel,
    blocks: Seq<NodeId>,
    delta: Rational,
) -> Option<Seq<Command>>
    decreases blocks.len(),
{
    if blocks.len() == 0 {
        Some(Seq::empty())
    } else {
        match shifts(g, blocks.drop_last(), delta) {
            None => None,
            Some(done) => match g.span(blocks.last()) {
                None => Some(done),
                Some(before) => match crate::rational::sum_of(before.in_point, delta) {
                    None => None,
                    Some(t) => match crate::spans::moved(before, t) {
                        None => None,
                        Some(after) => Some(
                            done.push(
                                Command::SetSpan { block: blocks.last(), before, after },
                            ),
                        ),
                    },
                },
            },
        }
    }
}

/// What ripple-trimming one edge of a clip to `new` comes to: the length the
/// clip gets, and how far everything behind it moves.
pub open spec fn ripple_amounts(span: Span, start_edge: bool, new: Rational) -> Option<
    (Rational, Rational),
> {
    if start_edge {
        match (
            crate::rational::difference_of(span.out_point, new),
            crate::rational::difference_of(new, span.in_point),
        ) {
            (Some(length), Some(delta)) => Some((length, delta)),
            _ => None,
        }
    } else {
        match (
            crate::rational::difference_of(new, span.in_point),
            crate::rational::difference_of(new, span.out_point),
        ) {
            (Some(length), Some(delta)) => Some((length, delta)),
            _ => None,
        }
    }
}

/// What ripple-trimming a clip comes to: the trim, then the blocks behind the
/// clip shifted by as much as the edge moved.
pub open spec fn ripple_plan(
    g: crate::graph::GraphModel,
    clip: NodeId,
    start_edge: bool,
    new_frame: i64,
) -> Result<Seq<Command>, EditError> {
    match g.clip_time_base(clip) {
        None => Err(EditError::NoClipRate),
        Some(tb) => {
            let span = g.span(clip).unwrap();
            let blocks = g.track(g.track_of(clip).unwrap()).unwrap().blocks;
            match crate::list::position_of(blocks, clip) {
                None => Err(EditError::NotOnItsTrack),
                Some(i) => match ripple_amounts(
                    span,
                    start_edge,
                    crate::timebase::time_of(new_frame, tb),
                ) {
                    None => Err(EditError::TimeOutOfRange),
                    Some((length, delta)) => if delta.num == 0 {
                        Ok(Seq::empty())
                    } else {
                        match (
                            trimmed(span, start_edge, length),
                            shifts(g, blocks.subrange(i + 1, blocks.len() as int), delta),
                        ) {
                            (Some(after), Some(tail)) => Ok(
                                seq![Command::SetSpan { block: clip, before: span, after }] + tail,
                            ),
                            _ => Err(EditError::TimeOutOfRange),
                        }
                    },
                },
            }
        },
    }
}

proof fn lemma_shifts_fail(
    g: crate::graph::GraphModel,
    blocks: Seq<NodeId>,
    delta: Rational,
    n: int,
)
    requires
        0 <= n <= blocks.len(),
        shifts(g, blocks.take(n), delta) is None,
    ensures
        shifts(g, blocks, delta) is None,
    decreases blocks.len() - n,
{
    if n == blocks.len() {
        assert(blocks.take(n) == blocks);
    } else {
        assert(blocks.take(n + 1).drop_last() == blocks.take(n));
        lemma_shifts_fail(g, blocks, delta, n + 1);
    }
}

/// Appends the commands that shift `blocks[from..]` by `delta`.
fn push_shifts(
    g: &Graph,
    blocks: &Vec<NodeId>,
    from: usize,
    delta: Rational,
    commands: &mut Vec<Command>,
) -> (ok: bool)
    requires
        from <= blocks.len(),
    ensures
        match shifts(g@, blocks@.subrange(from as int, blocks@.len() as int), delta) {
            Some(tail) => ok && final(commands)@ == old(commands)@ + tail,
            None => !ok,
        },
{
    let ghost tail = blocks@.subrange(from as int, blocks@.len() as int);
    let ghost start = commands@;
    let mut i: usize = from;
    proof {
        assert(tail.take(0) =~= Seq::empty());
        assert(start + Seq::<Command>::empty() =~= start);
    }
    while i < blocks.len()
        invariant
            from <= i <= blocks.len(),
            tail == blocks@.subrange(from as int, blocks@.len() as int),
            shifts(g@, tail.take(i - from), delta) is Some,
            commands@ == start + shifts(g@, tail.take(i - from), delta).unwrap(),
        decreases blocks.len() - i,
    {
        let ghost n = i - from;
        proof {
            assert(tail.take(n + 1).drop_last() == tail.take(n));
            assert(tail.take(n + 1).last() == blocks@[i as int]);
        }
        let block: NodeId = blocks[i];
        if let Some(before) = block_span(g, block) {
            let after: Option<Span> = match before.in_point.checked_add(delta) {
                Some(t) => before.move_to(t),
                None => None,
            };
            match after {
                Some(after) => {
                    commands.push(Command::SetSpan { block, before, after });
                },
                None => {
                    proof {
                        lemma_shifts_fail(g@, tail, delta, n + 1);
                    }
                    return false;
                },
            }
        }
        i = i + 1;
        assert(commands@ =~= start + shifts(g@, tail.take(i - from), delta).unwrap());
    }
    assert(tail.take(tail.len() as int) == tail);
    true
}

/// Ripple-trims `clip` so that its edge lands on `new_frame`, as one "Ripple
/// Trim Clip" row: the clip's other end stays anchored, and every block
/// behind it on the track shifts by as much as the edge moved.
pub fn ripple_trim_clip(g: &Graph, clip: NodeId, start_edge: bool, new_frame: i64) -> (r: Result<
    Option<Edit>,
    EditError,
>)
    ensures
        is_row(r, ripple_plan(g@, clip, start_edge, new_frame), "Ripple Trim Clip"@),
{
    let tb: (i64, i64) = match clip_time_base(g, clip) {
        Some(tb) => tb,
        None => return Err(EditError::NoClipRate),
    };
    let span: Span = match block_span(g, clip) {
        Some(span) => span,
        None => return Err(EditError::NotAClip),
    };
    let track: NodeId = match clip_track(g, clip) {
        Some(track) => track,
        None => return Err(EditError::NotOnTrack),
    };
    let t = match track_behavior(g, track) {
        Some(t) => t,
        None => return Err(EditError::NotOnItsTrack),
    };
    let i: usize = match position(&t.blocks, clip) {
        Some(i) => i,
        None => return Err(EditError::NotOnItsTrack),
    };
    let new: Rational = ts_to_rational(new_frame, tb);
    let amounts: (Option<Rational>, Option<Rational>) = if start_edge {
        (span.out_point.checked_sub(new), new.checked_sub(span.in_point))
    } else {
        (new.checked_sub(span.in_point), new.checked_sub(span.out_point))
    };
    let (length, delta): (Rational, Rational) = match amounts {
        (Some(length), Some(delta)) => (length, delta),
        _ => return Err(EditError::TimeOutOfRange),
    };
    if delta.is_null() {
        return Ok(None);
    }
    let mut commands: Vec<Command> = Vec::new();
    match trim_command(clip, span, start_edge, length) {
        Some(command) => {
            commands.push(command);
        },
        None => return Err(EditError::TimeOutOfRange),
    }
    let ghost head = commands@;
    if !push_shifts(g, &t.blocks, i + 1, delta, &mut commands) {
        return Err(EditError::TimeOutOfRange);
    }
    assert(commands@ =~= ripple_plan(g@, clip, start_edge, new_frame).unwrap());
    Ok(row("Ripple Trim Clip", commands))
}

/// What rolling the boundary of two clips comes to.
pub open spec fn roll_plan(
    g: crate::graph::GraphModel,
    track: NodeId,
    a: NodeId,
    b: NodeId,
    new_frame: i64,
) -> Result<Seq<Command>, EditError> {
    match g.clip_time_base(a) {
        None => Err(EditError::NoClipRate),
        Some(tb) => {
            let left = g.span(a).unwrap();
            let new = crate::timebase::time_of(new_frame, tb);
            match g.span(b) {
                None => Err(EditError::NotAClipB),
                Some(right) => if !crate::rational::same_time(left.out_point, right.in_point) {
                    Err(EditError::NoBoundary)
                } else if !crate::rational::before(left.in_point, new) || !crate::rational::before(
                    new,
                    right.out_point,
                ) {
                    Err(EditError::BoundaryEscapes)
                } else if crate::rational::same_time(new, left.out_point) {
                    Ok(Seq::empty())
                } else {
                    match crate::rational::difference_of(new, left.in_point) {
                        None => Err(EditError::TimeOutOfRange),
                        Some(length) => Ok(seq![Command::RollTrim { track, block: a, length }]),
                    }
                },
            }
        },
    }
}

/// Rolls the shared boundary of the adjacent clips `a` and `b` to
/// `new_frame`, as one "Roll Edit" row: nothing else on the track moves.
pub fn roll_edit(g: &Graph, track: NodeId, a: NodeId, b: NodeId, new_frame: i64) -> (r: Result<
    Option<Edit>,
    EditError,
>)
    ensures
        is_row(r, roll_plan(g@, track, a, b, new_frame), "Roll Edit"@),
{
    let tb: (i64, i64) = match clip_time_base(g, a) {
        Some(tb) => tb,
        None => return Err(EditError::NoClipRate),
    };
    let left: Span = match block_span(g, a) {
        Some(span) => span,
        None => return Err(EditError::NotAClipA),
    };
    let right: Span = match block_span(g, b) {
        Some(span) => span,
        None => return Err(EditError::NotAClipB),
    };
    if !left.out_point.same(right.in_point) {
        return Err(EditError::NoBoundary);
    }
    let new: Rational = ts_to_rational(new_frame, tb);
    if !left.in_point.is_before(new) || !new.is_before(right.out_point) {
        return Err(EditError::BoundaryEscapes);
    }
    if new.same(left.out_point) {
        return Ok(None);
    }
    match new.checked_sub(left.in_point) {
        None => Err(EditError::TimeOutOfRange),
        Some(length) => {
            let mut commands: Vec<Command> = Vec::new();
            commands.push(Command::RollTrim { track, block: a, length });
            assert(commands@ =~= seq![Command::RollTrim { track, block: a, length }]);
            Ok(row("Roll Edit", commands))
        },
    }
}

/// What sliding does to the block on the left: its out point follows the
/// clip's new in point, unless the block would collapse.
pub open spec fn left_slide(
    g: crate::graph::GraphModel,
    left: Option<NodeId>,
    new: Rational,
    delta: Rational,
) -> Option<Seq<Command>> {
    match left {
        None => Some(Seq::empty()),
        Some(l) => match g.span(l) {
            None => Some(Seq::empty()),
            Some(before) => if !crate::rational::before(before.in_point, new) {
                Some(Seq::empty())
            } else {
                match crate::spans::length_of(before) {
                    None => None,
                    Some(length) => match crate::rational::sum_of(length, delta) {
                        None => None,
                        Some(longer) => match crate::spans::resized(before, longer) {
                            None => None,
                            Some(after) => Some(
                                seq![Command::SetSpan { block: l, before, after }],
                            ),
                        },
                    },
                }
            },
        },
    }
}

/// What sliding does to the block on the right: its in point follows the
/// clip's new out point, unless the block would collapse.
pub open spec fn right_slide(
    g: crate::graph::GraphModel,
    right: Option<NodeId>,
    new_out: Rational,
    delta: Rational,
) -> Option<Seq<Command>> {
    match right {
        None => Some(Seq::empty()),
        Some(r) => match g.span(r) {
            None => Some(Seq::empty()),
            Some(before) => if !crate::rational::before(new_out, before.out_point) {
                Some(Seq::empty())
            } else {
                match crate::spans::length_of(before) {
                    None => None,
                    Some(length) => match crate::rational::difference_of(length, delta) {
                        None => None,
                        Some(shorter) => match crate::spans::head_trimmed(before, shorter) {
                            None => None,
                            Some(after) => Some(
                                seq![Command::SetSpan { block: r, before, after }],
                            ),
                        },
                    },
                }
            },
        },
    }
}

/// The block before index `i`.
pub open spec fn block_before(blocks: Seq<NodeId>, i: int) -> Option<NodeId> {
    if i > 0 {
        Some(blocks[i - 1])
    } else {
        None
    }
}

/// The block behind index `i`.
pub open spec fn block_behind(blocks: Seq<NodeId>, i: int) -> Option<NodeId> {
    if i + 1 < blocks.len() {
        Some(blocks[i + 1])
    } else {
        None
    }
}

/// What sliding a clip comes to: the clip moves as it is, and its neighbours
/// give or take the room.
pub open spec fn slide_plan(g: crate::graph::GraphModel, clip: NodeId, new_start: i64) -> Result<
    Seq<Command>,
    EditError,
> {
    match g.clip_time_base(clip) {
        None => Err(EditError::NoClipRate),
        Some(tb) => {
            let span = g.span(clip).unwrap();
            let blocks = g.track(g.track_of(clip).unwrap()).unwrap().blocks;
            let frame = if new_start < 0 {
                0
            } else {
                new_start
            };
            let new = crate::timebase::time_of(frame, tb);
            match crate::list::position_of(blocks, clip) {
                None => Err(EditError::NotOnItsTrack),
                Some(i) => match crate::rational::difference_of(new, span.in_point) {
                    None => Err(EditError::TimeOutOfRange),
                    Some(delta) => if delta.num == 0 {
                        Ok(Seq::empty())
                    } else {
                        match crate::spans::moved(span, new) {
                            None => Err(EditError::TimeOutOfRange),
                            Some(after) => match (
                                left_slide(g, block_before(blocks, i), new, delta),
                                right_slide(
                                    g,
                                    block_behind(blocks, i),
                                    after.out_point,
                                    delta,
                                ),
                            ) {
                                (Some(left), Some(right)) => Ok(
                                    seq![
                                        Command::SetSpan { block: clip, before: span, after },
                                    ] + left + right,
                                ),
                                _ => Err(EditError::TimeOutOfRange),
                            },
                        }
                    },
                },
            }
        },
    }
}

fn slide_left(
    g: &Graph,
    left: Option<NodeId>,
    new: Rational,
    delta: Rational,
    commands: &mut Vec<Command>,
) -> (ok: bool)
    ensures
        match left_slide(g@, left, new, delta) {
            Some(cs) => ok && final(commands)@ == old(commands)@ + cs,
            None => !ok,
        },
{
    let ghost start = commands@;
    assert(start + Seq::<Command>::empty() =~= start);
    let l: NodeId = match left {
        Some(l) => l,
        None => return true,
    };
    let before: Span = match block_span(g, l) {
        Some(span) => span,
        None => return true,
    };
    if !before.in_point.is_before(new) {
        return true;
    }
    let longer: Option<Rational> = match before.length() {
        Some(length) => length.checked_add(delta),
        None => None,
    };
    let after: Option<Span> = match longer {
        Some(length) => before.set_length_and_media_out(length),
        None => None,
    };
    match after {
        Some(after) => {
            commands.push(Command::SetSpan { block: l, before, after });
            assert(commands@ =~= start + seq![Command::SetSpan { block: l, before, after }]);
            true
        },
        None => false,
    }
}

fn slide_right(
    g: &Graph,
    right: Option<NodeId>,
    new_out: Rational,
    delta: Rational,
    commands: &mut Vec<Command>,
) -> (ok: bool)
    ensures
        match right_slide(g@, right, new_out, delta) {
            Some(cs) => ok && final(commands)@ == old(commands)@ + cs,
            None => !ok,
        },
{
    let ghost start = commands@;
    assert(start + Seq::<Command>::empty() =~= start);
    let r: NodeId = match right {
        Some(r) => r,
        None => return true,
    };
    let before: Span = match block_span(g, r) {
        Some(span) => span,
        None => return true,
    };
    if !new_out.is_before(before.out_point) {
        return true;
    }
    let shorter: Option<Rational> = match before.length() {
        Some(length) => length.checked_sub(delta),
        None => None,
    };
    let after: Option<Span> = match shorter {
        Some(length) => before.set_length_keeping_out(length),
        None => None,
    };
    match after {
        Some(after) => {
            commands.push(Command::SetSpan { block: r, before, after });
            assert(commands@ =~= start + seq![Command::SetSpan { block: r, before, after }]);
            true
        },
        None => false,
    }
}

/// Slides `clip` so that its in point becomes `new_start` (frame 0 at the
/// earliest), as one "Slide Clip" row: its length and media window stay, the
/// left neighbour's out point and the right neighbour's in point follow. A
/// neighbour that would collapse is left alone.
pub fn slide_clip(g: &Graph, clip: NodeId, new_start: i64) -> (r: Result<Option<Edit>, EditError>)
    ensures
        is_row(r, slide_plan(g@, clip, new_start), "Slide Clip"@),
{
    let tb: (i64, i64) = match clip_time_base(g, clip) {
        Some(tb) => tb,
        None => return Err(EditError::NoClipRate),
    };
    let span: Span = match block_span(g, clip) {
        Some(span) => span,
        None => return Err(EditError::NotAClip),
    };
    let track: NodeId = match clip_track(g, clip) {
        Some(track) => track,
        None => return Err(EditError::NotOnTrack),
    };
    let t = match track_behavior(g, track) {
        Some(t) => t,
        None => return Err(EditError::NotOnItsTrack),
    };
    let i: usize = match position(&t.blocks, clip) {
        Some(i) => i,
        None => return Err(EditError::NotOnItsTrack),
    };
    let frame: i64 = if new_start < 0 {
        0
    } else {
        new_start
    };
    let new: Rational = ts_to_rational(frame, tb);
    let delta: Rational = match new.checked_sub(span.in_point) {
        Some(delta) => delta,
        None => return Err(EditError::TimeOutOfRange),
    };
    if delta.is_null() {
        return Ok(None);
    }
    let after: Span = match span.move_to(new) {
        Some(after) => after,
        None => return Err(EditError::TimeOutOfRange),
    };
    let left: Option<NodeId> = if i > 0 {
        Some(t.blocks[i - 1])
    } else {
        None
    };
    let right: Option<NodeId> = if i + 1 < t.blocks.len() {
        Some(t.blocks[i + 1])
    } else {
        None
    };
    let mut commands: Vec<Command> = Vec::new();
    commands.push(Command::SetSpan { block: clip, before: span, after });
    assert(commands@ =~= seq![Command::SetSpan { block: clip, before: span, after }]);
    if !slide_left(g, left, new, delta, &mut commands) {
        return Err(EditError::TimeOutOfRange);
    }
    if !slide_right(g, right, after.out_point, delta, &mut commands) {
        return Err(EditError::TimeOutOfRange);
    }
    Ok(row("Slide Clip", commands))
}

/// What slipping a clip comes to: only its media in-point changes.
pub open spec fn slip_plan(g: crate::graph::GraphModel, clip: NodeId, new_media_in: i64) -> Result<
    Seq<Command>,
    EditError,
> {
    match g.clip_time_base(clip) {
        None => Err(EditError::NoClipRate),
        Some(tb) => {
            let before = g.span(clip).unwrap();
            let frame = if new_media_in < 0 {
                0
            } else {
                new_media_in
            };
            let media_in = crate::timebase::time_of(frame, tb);
            if crate::rational::same_time(media_in, before.media_in) {
                Ok(Seq::empty())
            } else {
                Ok(
                    seq![
                        Command::SetSpan {
                            block: clip,
                            before,
                            after: Span { media_in, ..before },
                        },
                    ],
                )
            }
        },
    }
}

/// Slips `clip` so that its media in-point becomes `new_media_in` (frame 0 at
/// the earliest), as one "Slip Clip" row: its range stays put.
pub fn slip_clip(g: &Graph, clip: NodeId, new_media_in: i64) -> (r: Result<
    Option<Edit>,
    EditError,
>)
    ensures
        is_row(r, slip_plan(g@, clip, new_media_in), "Slip Clip"@),
{
    let tb: (i64, i64) = match clip_time_base(g, clip) {
        Some(tb) => tb,
        None => return Err(EditError::NoClipRate),
    };
    let before: Span = match block_span(g, clip) {
        Some(span) => span,
        None => return Err(EditError::NotAClip),
    };
    let frame: i64 = if new_media_in < 0 {
        0
    } else {
        new_media_in
    };
    let media_in: Rational = ts_to_rational(frame, tb);
    if media_in.same(before.media_in) {
        return Ok(None);
    }
    let mut commands: Vec<Command> = Vec::new();
    commands.push(
        Command::SetSpan { block: clip, before, after: Span { media_in, ..before } },
    );
    assert(commands@ =~= slip_plan(g@, clip, new_media_in).unwrap());
    Ok(row("Slip Clip", commands))
}

} // verus!
