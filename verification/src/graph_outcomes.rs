//! What edges, positions, wedges, markers and the library's address come to.

use crate::commands::Command;
use crate::edges::EdgeError;
use crate::errors::EditError;
use crate::graph::{ContextPosition, NodeId, Transition};
use crate::library::{LibraryError, Storage};
use crate::markers::MarkerModel;
use crate::rational::Rational;
use vstd::prelude::*;

verus! {

/// A connection is refused for an end that is not there, for an input that
/// the node does not have, that takes no edge or that is fed; and for nothing
/// else.
pub proof fn lemma_connect_refused(
    g: crate::graph::GraphModel,
    from: NodeId,
    to: NodeId,
    input: Seq<char>,
)
    ensures
        ({
            let r = crate::edges::connect_refusal(g, from, to, input);
            let n = g.node(to).unwrap();
            let i = n.input(input).unwrap();
            if g.node(from) is None || g.node(to) is None {
                r == Some(EdgeError::NodeNotFound)
            } else if n.input(input) is None {
                r == Some(EdgeError::ConnectNoInput)
            } else if !n.inputs[i].connectable {
                r == Some(EdgeError::NotConnectable)
            } else if g.connected_output(to, input) is Some {
                r == Some(EdgeError::AlreadyConnected)
            } else {
                r is None
            }
        }),
{
}

/// The texts that refused edges are reported with.
pub proof fn lemma_edge_texts(input: Seq<char>)
    ensures
        crate::edges::edge_message(EdgeError::NodeNotFound, input) == "connect: node not found"@,
        crate::edges::edge_message(EdgeError::ConnectNoInput, input) == "connect: no input \""@
            + input + "\""@,
        crate::edges::edge_message(EdgeError::NotConnectable, input) == "connect: input \""@ + input
            + "\" is not connectable"@,
        crate::edges::edge_message(EdgeError::AlreadyConnected, input) == "connect: input \""@
            + input + "\" is already connected"@,
        crate::edges::edge_message(EdgeError::DisconnectNoInput, input)
            == "disconnect: no input \""@ + input + "\""@,
        crate::edges::edge_message(EdgeError::PositionNotFound, input)
            == "set position: node not found"@,
{
}

/// Whether `p` is the first position in its context.
pub open spec fn stands_at(positions: Seq<ContextPosition>, i: int, context: NodeId) -> bool {
    &&& 0 <= i < positions.len()
    &&& positions[i].context == context
    &&& forall|j: int| 0 <= j < i ==> (#[trigger] positions[j]).context != context
}

/// Setting a position sets the one in its context, or adds it at the end where
/// there is none, and moves nothing in another context.
pub proof fn lemma_positioned(positions: Seq<ContextPosition>, p: ContextPosition, i: int)
    ensures
        ({
            let now = crate::edges::positioned(positions, p);
            &&& stands_at(positions, i, p.context) ==> now.len() == positions.len() && now[i] == p
                && forall|j: int|
                0 <= j < positions.len() && j != i ==> #[trigger] now[j] == positions[j]
            &&& (forall|j: int|
                0 <= j < positions.len() ==> (#[trigger] positions[j]).context != p.context)
                ==> now == positions.push(p)
        }),
{
    crate::edges::lemma_position_index(positions, p.context, 0);
    if stands_at(positions, i, p.context) {
        match crate::edges::position_index(positions, p.context, 0) {
            Some(k) => {
                if k < i {
                    assert(positions[k].context != p.context);
                } else if i < k {
                    assert(positions[i].context != p.context);
                }
            },
            None => {
                assert(positions[i].context != p.context);
            },
        }
    } else if forall|j: int|
        0 <= j < positions.len() ==> (#[trigger] positions[j]).context != p.context {
        if let Some(k) = crate::edges::position_index(positions, p.context, 0) {
            assert(positions[k].context != p.context);
        }
    }
}

/// Taking a position out removes the first in its context, and nothing where
/// there is none.
pub proof fn lemma_unpositioned(positions: Seq<ContextPosition>, context: NodeId, i: int)
    ensures
        ({
            let now = crate::edges::unpositioned(positions, context);
            &&& stands_at(positions, i, context) ==> now == positions.remove(i)
            &&& (forall|j: int|
                0 <= j < positions.len() ==> (#[trigger] positions[j]).context != context) ==> now
                == positions
        }),
{
    crate::edges::lemma_position_index(positions, context, 0);
    if stands_at(positions, i, context) {
        match crate::edges::position_index(positions, context, 0) {
            Some(k) => {
                if k < i {
                    assert(positions[k].context != context);
                } else if i < k {
                    assert(positions[i].context != context);
                }
            },
            None => {
                assert(positions[i].context != context);
            },
        }
    } else if forall|j: int|
        0 <= j < positions.len() ==> (#[trigger] positions[j]).context != context {
        if let Some(k) = crate::edges::position_index(positions, context, 0) {
            assert(positions[k].context != context);
        }
    }
}

/// A wedge reaches its width from the seam: the head wedge of the clip behind
/// it, the tail wedge of the clip before it. The transition keeps its track,
/// its media and its speed.
pub proof fn lemma_wedge_reaches(t: Transition, start_edge: bool, width: Rational, seam: Rational)
    requires
        crate::spans::canonical(seam),
        crate::measures::later_by(t.core.in_point, seam, t.in_offset),
        width.den > 0,
        crate::wedges::with_wedge(t, start_edge, width) is Some,
    ensures
        ({
            let now = crate::wedges::with_wedge(t, start_edge, width).unwrap();
            &&& start_edge ==> crate::measures::later_by(seam, now.core.out_point, width)
            &&& !start_edge ==> crate::measures::later_by(now.core.in_point, seam, width)
            &&& start_edge ==> now.out_offset == width && now.in_offset == t.in_offset
                && now.core.in_point == t.core.in_point
            &&& !start_edge ==> now.in_offset == width && now.out_offset == t.out_offset
                && now.core.out_point == t.core.out_point
            &&& now.core.track == t.core.track
            &&& now.core.media_in == t.core.media_in
            &&& now.core.speed_bits == t.core.speed_bits
        }),
{
    crate::measures::lemma_sum_is_later(t.core.in_point, t.in_offset, seam);
    let s = crate::rational::sum_of(t.core.in_point, t.in_offset).unwrap();
    let n = t.core.in_point.num * t.in_offset.den + t.in_offset.num * t.core.in_point.den;
    let d = t.core.in_point.den * t.in_offset.den;
    crate::time_laws::lemma_positive(t.core.in_point.den as int, t.in_offset.den as int);
    crate::spans::lemma_results_are_canonical(n, d);
    crate::time_laws::lemma_canonical_equal(s, seam);
    crate::measures::lemma_sum_is_later(seam, width, width);
    crate::measures::lemma_difference_is_earlier(seam, width, width);
}

/// A wedge is as wide as asked, but no narrower than a frame and no wider than
/// its clip.
pub proof fn lemma_wedge_asked(frame: Rational, requested: Rational, length: Rational)
    requires
        frame.den > 0,
        requested.den > 0,
        length.den > 0,
        !crate::rational::before(length, frame),
    ensures
        ({
            let w = crate::wedges::wedge_width(frame, requested, length);
            &&& !crate::rational::before(requested, frame) && !crate::rational::before(
                length,
                requested,
            ) ==> w == requested
            &&& crate::rational::before(requested, frame) ==> w == frame
            &&& crate::rational::before(length, requested) && !crate::rational::before(
                requested,
                frame,
            ) ==> w == length
        }),
{
}

/// A wedge request is answered by the transition on that edge of the clip: the
/// width comes from the clip's own length, and the one command rewrites that
/// transition from what it is.
pub proof fn lemma_wedge_request(
    g: crate::graph::GraphModel,
    clip: NodeId,
    start_edge: bool,
    frame: Rational,
    requested: Rational,
    length: Rational,
)
    requires
        g.block(clip) is Some,
        crate::spans::canonical(length),
        crate::measures::later_by(
            g.block(clip).unwrap().in_point,
            g.block(clip).unwrap().out_point,
            length,
        ),
    ensures
        ({
            let r = crate::wedges::wedge_plan(g, clip, start_edge, frame, requested);
            let id = g.edge_transition(clip, start_edge).unwrap();
            let width = crate::wedges::wedge_width(frame, requested, length);
            let t = g.transition(id).unwrap();
            let after = crate::wedges::with_wedge(t, start_edge, width);
            if g.edge_transition(clip, start_edge) is None {
                r is Err && r->Err_0 == EditError::NoTransition
            } else if g.transition(id) is None {
                r is Ok && r.unwrap().0 == width && r.unwrap().1.len() == 0
            } else if after is None {
                r is Err && r->Err_0 == EditError::TimeOutOfRange
            } else {
                &&& r is Ok
                &&& r.unwrap().0 == width
                &&& r.unwrap().1.len() == 1
                &&& r.unwrap().1[0] == (Command::SetTransition {
                    transition: id,
                    before: t,
                    after: after.unwrap(),
                })
            }
        }),
{
    let core = g.block(clip).unwrap();
    crate::measures::lemma_difference_is_way(core.out_point, core.in_point, length);
    let n = core.out_point.num * core.in_point.den - core.in_point.num * core.out_point.den;
    let d = core.out_point.den * core.in_point.den;
    crate::time_laws::lemma_positive(core.out_point.den as int, core.in_point.den as int);
    crate::spans::lemma_results_are_canonical(n, d);
    crate::time_laws::lemma_canonical_equal(
        crate::rational::difference_of(core.out_point, core.in_point).unwrap(),
        length,
    );
}

/// The marker found at a time stands there, before any other that does, and
/// none is found exactly when none stands there.
pub proof fn lemma_marker_found(markers: Seq<MarkerModel>, time: Rational, from: int)
    requires
        0 <= from,
    ensures
        match crate::markers::marker_from(markers, time, from) {
            Some(i) => from <= i < markers.len() && crate::rational::same_time(
                markers[i].time,
                time,
            ) && forall|j: int|
                from <= j < i ==> !crate::rational::same_time((#[trigger] markers[j]).time, time),
            None => forall|j: int|
                from <= j < markers.len() ==> !crate::rational::same_time(
                    (#[trigger] markers[j]).time,
                    time,
                ),
        },
    decreases markers.len() - from,
{
    if from < markers.len() && !crate::rational::same_time(markers[from].time, time) {
        lemma_marker_found(markers, time, from + 1);
    }
}

/// Requests go to where the library is, when storage is on and the place
/// resolves.
pub proof fn lemma_library_place(storage: Storage)
    ensures
        storage.enabled && storage.location is Some ==> storage.target() == Ok::<
            Seq<char>,
            LibraryError,
        >(storage.location.unwrap()@),
        storage.enabled && storage.location is None ==> storage.target() == Err::<
            Seq<char>,
            LibraryError,
        >(LibraryError::NoLocation),
        !storage.enabled ==> storage.target() == Err::<Seq<char>, LibraryError>(
            LibraryError::NotConfigured,
        ),
        crate::library::library_message(LibraryError::NotConfigured)
            == "the project library is not configured"@,
        crate::library::library_message(LibraryError::NoLocation)
            == "the project library path does not resolve"@,
        crate::library::library_message(LibraryError::InvalidName) == "invalid name"@,
        crate::library::library_message(LibraryError::InvalidUuid) == "invalid uuid"@,
        crate::library::library_message(LibraryError::InvalidUuidOrName)
            == "invalid uuid or name"@,
{
}

/// A node's position in a context is the first it has there.
pub proof fn lemma_position_read(g: crate::graph::GraphModel, id: NodeId, context: NodeId, i: int)
    ensures
        g.node(id) is None ==> g.position_in(id, context) is None,
        g.node(id) matches Some(n) ==> {
            &&& stands_at(n.positions, i, context) ==> g.position_in(id, context) == Some(
                n.positions[i],
            )
            &&& (forall|j: int|
                0 <= j < n.positions.len() ==> (#[trigger] n.positions[j]).context != context)
                ==> g.position_in(id, context) is None
        },
{
    if let Some(n) = g.node(id) {
        crate::edges::lemma_position_index(n.positions, context, 0);
        match crate::edges::position_index(n.positions, context, 0) {
            Some(k) => {
                assert(n.positions[k].context == context);
                if stands_at(n.positions, i, context) {
                    if k < i {
                        assert(n.positions[k].context != context);
                    } else if i < k {
                        assert(n.positions[i].context != context);
                    }
                }
            },
            None => {
                if stands_at(n.positions, i, context) {
                    assert(n.positions[i].context != context);
                }
            },
        }
    }
}

/// Positions are set on the node alone.
pub proof fn lemma_positions_set(
    g: crate::graph::GraphModel,
    id: NodeId,
    positions: Seq<ContextPosition>,
)
    ensures
        ({
            let now = g.with_positions(id, positions);
            &&& crate::redo_laws::only_at(g, now, id)
            &&& g.node(id) matches Some(n) ==> (now.node(id) matches Some(m) && m.positions
                == positions && m.behavior == n.behavior && m.inputs == n.inputs && m.links
                == n.links && m.label == n.label)
            &&& g.node(id) is None ==> now == g
        }),
{
}

/// An input that is fed or unfed is so, and the node keeps the rest.
pub proof fn lemma_source_set(
    g: crate::graph::GraphModel,
    to: NodeId,
    input: Seq<char>,
    source: Option<NodeId>,
)
    ensures
        ({
            let now = g.with_source(to, input, source);
            let n = g.node(to).unwrap();
            &&& crate::redo_laws::only_at(g, now, to)
            &&& g.node(to) is Some && n.input(input) is Some ==> {
                &&& now.connected_output(to, input) == source
                &&& now.node(to).unwrap().behavior == n.behavior
                &&& now.node(to).unwrap().links == n.links
                &&& now.node(to).unwrap().inputs.len() == n.inputs.len()
                &&& forall|i: int|
                    0 <= i < n.inputs.len() && i != n.input(input).unwrap() ==> #[trigger] now.node(
                        to,
                    ).unwrap().inputs[i] == n.inputs[i]
            }
            &&& g.node(to) is None || n.input(input) is None ==> now == g
        }),
{
    if let Some(n) = g.node(to) {
        crate::redo_laws::lemma_input(n.inputs, input, 0);
        if let Some(i) = n.input(input) {
            crate::redo_laws::lemma_input_kept(n.inputs, n.fed(i, source).inputs, input, 0);
        }
    }
}

/// What a library request comes back with is where it goes, or why it does
/// not.
pub proof fn lemma_request_outcome(
    r: Result<String, LibraryError>,
    e: Result<Seq<char>, LibraryError>,
)
    requires
        crate::library::same_outcome(r, e),
    ensures
        r is Ok <==> e is Ok,
        r is Ok ==> r.unwrap()@ == e.unwrap(),
        r is Err ==> r->Err_0 == e->Err_0,
{
}

} // verus!
