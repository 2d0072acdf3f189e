//! What each undoable step does when it is taken.

use crate::commands::{Command, Port, Span, TrackFlag};
use crate::graph::{NodeId, Transition, IN_BLOCK, OUT_BLOCK, TEXTURE_INPUT};
use vstd::prelude::*;

verus! {

/// Whether `now` differs from `g` at `id` at the most.
pub open spec fn only_at(
    g: crate::graph::GraphModel,
    now: crate::graph::GraphModel,
    id: NodeId,
) -> bool {
    &&& now.slots.len() == g.slots.len()
    &&& now.root == g.root
    &&& forall|other: NodeId| other != id ==> #[trigger] now.node(other) == g.node(other)
}

/// Rewriting a span sets the three times of the block and nothing else.
pub proof fn lemma_set_span(
    g: crate::graph::GraphModel,
    block: NodeId,
    before: Span,
    after: Span,
)
    ensures
        ({
            let now = g.redone(Command::SetSpan { block, before, after });
            &&& only_at(g, now, block)
            &&& g.block(block) is None ==> now == g
            &&& g.block(block) matches Some(old_core) ==> (now.block(block) matches Some(core)
                && core.in_point == after.in_point && core.out_point == after.out_point
                && core.media_in == after.media_in && core.track == old_core.track
                && core.speed_bits == old_core.speed_bits)
            &&& g.clip(block) is Some ==> now.clip(block) == now.block(block)
            &&& g.transition(block) matches Some(t) ==> (now.transition(block) matches Some(u)
                && u.in_offset == t.in_offset && u.out_offset == t.out_offset)
            &&& now.links(block) == g.links(block)
        }),
{
}

/// Rewriting a transition sets it and nothing else.
pub proof fn lemma_set_transition(
    g: crate::graph::GraphModel,
    transition: NodeId,
    before: Transition,
    after: Transition,
)
    ensures
        ({
            let now = g.redone(Command::SetTransition { transition, before, after });
            &&& only_at(g, now, transition)
            &&& g.transition(transition) is None ==> now == g
            &&& g.transition(transition) is Some ==> now.transition(transition) == Some(after)
            &&& now.links(transition) == g.links(transition)
        }),
{
}

/// Linking adds one entry to the links of the first node, unless it is there.
pub proof fn lemma_add_link(g: crate::graph::GraphModel, from: NodeId, to: NodeId)
    ensures
        ({
            let now = g.redone(Command::AddLink { from, to });
            &&& only_at(g, now, from)
            &&& g.node(from) is Some ==> now.links(from).contains(to)
            &&& g.node(from) is Some && !g.links(from).contains(to) ==> now.links(from) == g.links(
                from,
            ).push(to)
            &&& g.links(from).contains(to) ==> now == g
            &&& g.node(from) is None ==> now == g
            &&& now.block(from) == g.block(from)
        }),
{
    if let Some(n) = g.node(from) {
        if !n.links.contains(to) {
            let more = n.links.push(to);
            assert(more[n.links.len() as int] == to);
        }
    }
}

/// Feeding an input connects it and leaves the others as they are.
pub proof fn lemma_connect(g: crate::graph::GraphModel, from: NodeId, to: NodeId, port: Port)
    ensures
        ({
            let now = g.redone(Command::Connect { from, to, port });
            let name = match port {
                Port::Texture => TEXTURE_INPUT@,
                Port::OutBlock => OUT_BLOCK@,
                Port::InBlock => IN_BLOCK@,
            };
            let n = g.node(to).unwrap();
            &&& only_at(g, now, to)
            &&& now.links(to) == g.links(to)
            &&& now.block(to) == g.block(to)
            &&& g.node(to) is Some && n.input(name) is Some ==> {
                &&& now.connected_output(to, name) == Some(from)
                &&& now.node(to).unwrap().inputs.len() == n.inputs.len()
                &&& forall|i: int|
                    0 <= i < n.inputs.len() && i != n.input(name).unwrap() ==> #[trigger] now.node(
                        to,
                    ).unwrap().inputs[i] == n.inputs[i]
            }
            &&& g.node(to) is Some && n.input(name) is None ==> now == g
        }),
{
    let name = match port {
        Port::Texture => TEXTURE_INPUT@,
        Port::OutBlock => OUT_BLOCK@,
        Port::InBlock => IN_BLOCK@,
    };
    if let Some(n) = g.node(to) {
        lemma_input(n.inputs, name, 0);
        if let Some(i) = n.input(name) {
            lemma_input(n.fed(i, Some(from)).inputs, name, 0);
            lemma_input_kept(n.inputs, n.fed(i, Some(from)).inputs, name, 0);
        }
    }
}

/// An input is found by its own name, before any later one of that name, and
/// no entry of an array is.
pub proof fn lemma_input(inputs: Seq<crate::graph::InputModel>, id: Seq<char>, from: int)
    requires
        0 <= from,
    ensures
        match crate::graph::input_from(inputs, id, from) {
            Some(i) => from <= i < inputs.len() && inputs[i].id == id && inputs[i].element == -1
                && forall|j: int|
                from <= j < i ==> !((#[trigger] inputs[j]).id == id && inputs[j].element == -1),
            None => forall|j: int|
                from <= j < inputs.len() ==> !((#[trigger] inputs[j]).id == id
                    && inputs[j].element == -1),
        },
    decreases inputs.len() - from,
{
    if from < inputs.len() && !(inputs[from].id == id && inputs[from].element == -1) {
        lemma_input(inputs, id, from + 1);
    }
}

pub(crate) proof fn lemma_input_kept(
    inputs: Seq<crate::graph::InputModel>,
    now: Seq<crate::graph::InputModel>,
    id: Seq<char>,
    from: int,
)
    requires
        0 <= from,
        now.len() == inputs.len(),
        forall|i: int|
            0 <= i < inputs.len() ==> (#[trigger] now[i]).id == inputs[i].id && now[i].element
                == inputs[i].element,
    ensures
        crate::graph::input_from(now, id, from) == crate::graph::input_from(inputs, id, from),
    decreases inputs.len() - from,
{
    if from < inputs.len() {
        assert(now[from].id == inputs[from].id);
        lemma_input_kept(inputs, now, id, from + 1);
    }
}

/// Setting a flag sets it, and keeps the other flag and the blocks.
pub proof fn lemma_set_flag(
    g: crate::graph::GraphModel,
    track: NodeId,
    flag: TrackFlag,
    before: bool,
    after: bool,
)
    ensures
        ({
            let now = g.redone(Command::SetFlag { track, flag, before, after });
            &&& only_at(g, now, track)
            &&& g.track(track) is None ==> now == g
            &&& g.track(track) matches Some(t) ==> (now.track(track) matches Some(u) && u.blocks
                == t.blocks && u.kind == t.kind && u.index == t.index && u.track_list
                == t.track_list && u.muted == (if flag is Muted {
                after
            } else {
                t.muted
            }) && u.locked == (if flag is Locked {
                after
            } else {
                t.locked
            }))
        }),
{
}

/// Entering a block lists it right behind the anchor, or first without one,
/// and puts it on the track; every other block keeps its place.
pub proof fn lemma_insert_after(
    g: crate::graph::GraphModel,
    track: NodeId,
    block: NodeId,
    anchor: Option<NodeId>,
)
    requires
        block != track,
        g.track(track) is Some,
        g.block(block) is Some,
        anchor matches Some(a) ==> g.track(track).unwrap().blocks.contains(a),
    ensures
        ({
            let now = g.redone(Command::InsertAfter { track, block, anchor });
            let b = g.track(track).unwrap().blocks;
            let core = g.block(block).unwrap();
            &&& now.track(track) is Some
            &&& exists|p: int| #[trigger]
                crate::transition_laws::at_gap(b, p, anchor, None) && now.track(
                    track,
                ).unwrap().blocks == b.insert(p, block) && (anchor is None ==> p == 0)
            &&& now.block(block) matches Some(c) && c.track == Some(track) && c.in_point
                == core.in_point && c.out_point == core.out_point && c.media_in == core.media_in
            &&& forall|other: NodeId|
                other != track && other != block ==> #[trigger] now.node(other) == g.node(other)
        }),
{
    let b = g.track(track).unwrap().blocks;
    match anchor {
        None => {
            assert(crate::transition_laws::at_gap(b, 0, anchor, None));
        },
        Some(a) => {
            crate::list::lemma_position(b, a);
            let i = crate::list::position_of(b, a).unwrap();
            assert(crate::transition_laws::at_gap(b, i + 1, anchor, None));
        },
    }
}

/// Mounting notes the folder on the child and lists the child last in the
/// folder, unless it is listed there.
pub proof fn lemma_add_child(g: crate::graph::GraphModel, folder: NodeId, child: NodeId)
    requires
        folder != child,
        g.folder(folder) is Some,
        g.node(child) is Some,
    ensures
        ({
            let now = g.redone(Command::AddChild { folder, child });
            let c = g.folder(folder).unwrap();
            &&& now.node(child) is Some
            &&& now.node(child).unwrap().bin_folder == Some(folder)
            &&& now.folder(folder) == Some(
                if c.contains(child) {
                    c
                } else {
                    c.push(child)
                },
            )
            &&& forall|other: NodeId|
                other != folder && other != child ==> #[trigger] now.node(other) == g.node(other)
        }),
{
}

/// A step for the host changes nothing here.
pub proof fn lemma_host_step(g: crate::graph::GraphModel, command: Command)
    requires
        command is PlaceBlock || command is MoveBlock || command is ReplaceWithGap
            || command is RemoveNode || command is Split || command is RippleRemove
            || command is RollTrim || command is AddTrack || command is RemoveTrack,
    ensures
        crate::commands::for_host(command),
        g.redone(command) == g,
        g.undone(command) == g,
{
}

/// Whether `r` is the row that `commands` make under `name`.
pub proof fn lemma_row(
    r: Result<Option<crate::commands::Edit>, crate::errors::EditError>,
    plan: Result<Seq<Command>, crate::errors::EditError>,
    name: Seq<char>,
)
    requires
        crate::clip_edits::is_row(r, plan, name),
    ensures
        r is Err <==> plan is Err,
        r is Err ==> r->Err_0 == plan->Err_0,
        r is Ok && r.unwrap() is None <==> plan is Ok && plan.unwrap().len() == 0,
        r is Ok && r.unwrap() is Some ==> r.unwrap().unwrap().commands@ == plan.unwrap()
            && r.unwrap().unwrap().name@ == name,
{
}

/// Removing a node takes every link to it with it, and nothing else.
pub proof fn lemma_taken(g: crate::graph::GraphModel, id: NodeId, other: NodeId)
    requires
        other < g.slots.len(),
        g.slots.len() <= u64::MAX,
    ensures
        ({
            let now = g.taken(id);
            &&& now.slots.len() == g.slots.len()
            &&& other == id ==> now.node(other) is None
            &&& other != id ==> match g.node(other) {
                None => now.node(other) is None,
                Some(n) => now.node(other) matches Some(m) && m.behavior == n.behavior && m.label
                    == n.label && m.inputs == n.inputs && !m.links.contains(id) && forall|x: NodeId|
                    x != id ==> (m.links.contains(x) <==> n.links.contains(x)),
            }
        }),
{
    if other != id {
        if let Some(n) = g.node(other) {
            crate::list::lemma_without_contains(n.links, id, id);
            assert forall|x: NodeId| x != id implies (crate::list::without(n.links, id).contains(
                x,
            ) <==> n.links.contains(x)) by {
                crate::list::lemma_without_contains(n.links, id, x);
            }
        }
    }
}

} // verus!
