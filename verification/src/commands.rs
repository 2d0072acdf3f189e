//! Undoable commands and the edits made of them.
//!
//! An edit is one row of the undo history: a name and its commands in order.
//! Commands that rewrite nodes in place are carried out here; the remaining
//! ones name an operation of the timeline modules, which the host carries
//! out and records in the same row.

use crate::graph::{
    Behavior, Block, Graph, NodeId, Transition, IN_BLOCK, OUT_BLOCK, TEXTURE_INPUT,
};
use crate::list::{contains, position, retain_not};
use crate::queries::block_core_of;
use crate::rational::Rational;
use vstd::prelude::*;

verus! {

/// The block inputs that edits wire.
#[derive(Clone, Copy, Debug, PartialEq, Eq, Structural)]
pub enum Port {
    /// A clip's picture.
    Texture,
    /// The side of a transition that the block before it feeds.
    OutBlock,
    /// The side of a transition that the block after it feeds.
    InBlock,
}

/// The input id of a port.
pub open spec fn port_name(port: Port) -> Seq<char> {
    match port {
        Port::Texture => TEXTURE_INPUT@,
        Port::OutBlock => OUT_BLOCK@,
        Port::InBlock => IN_BLOCK@,
    }
}

impl Port {
    /// The input id of the port.
    pub fn id(self) -> (s: &'static str)
        ensures
            s@ == port_name(self),
    {
        match self {
            Port::Texture => TEXTURE_INPUT,
            Port::OutBlock => OUT_BLOCK,
            Port::InBlock => IN_BLOCK,
        }
    }
}

/// The track flags that edits set.
#[derive(Clone, Copy, Debug, PartialEq, Eq, Structural)]
pub enum TrackFlag {
    /// Silenced (audio) or hidden (video, subtitle).
    Muted,
    /// Locked against clip edits.
    Locked,
}

/// Where a block lies in time: on the timeline, and in its media.
#[derive(Clone, Copy, Debug)]
pub struct Span {
    pub in_point: Rational,
    pub out_point: Rational,
    pub media_in: Rational,
}

/// The span of a block.
pub open spec fn span_of(core: Block) -> Span {
    Span { in_point: core.in_point, out_point: core.out_point, media_in: core.media_in }
}

/// The block with its span replaced.
pub open spec fn respanned(core: Block, span: Span) -> Block {
    Block {
        in_point: span.in_point,
        out_point: span.out_point,
        media_in: span.media_in,
        ..core
    }
}

/// One undoable step.
#[allow(inconsistent_fields)]
#[derive(Clone, Copy, Debug)]
pub enum Command {
    /// Rewrites the span of a block; its track stays.
    SetSpan { block: NodeId, before: Span, after: Span },
    /// Rewrites a transition.
    SetTransition { transition: NodeId, before: Transition, after: Transition },
    /// Links one way; the undo removes only that direction.
    AddLink { from: NodeId, to: NodeId },
    /// Links both ways.
    LinkPair { a: NodeId, b: NodeId },
    /// Feeds an input; the undo leaves it unconnected.
    Connect { from: NodeId, to: NodeId, port: Port },
    /// Sets a track flag.
    SetFlag { track: NodeId, flag: TrackFlag, before: bool, after: bool },
    /// Enters a block into a track behind `anchor` (at the head without one),
    /// disturbing nothing else on the track.
    InsertAfter { track: NodeId, block: NodeId, anchor: Option<NodeId> },
    /// Mounts a node in a folder.
    AddChild { folder: NodeId, child: NodeId },
    /// Host: places a block, clearing the span it covers.
    PlaceBlock { list: NodeId, track_index: i32, block: NodeId, at: Rational },
    /// Host: moves a block within its track, leaving a gap behind.
    MoveBlock { list: NodeId, track_index: i32, block: NodeId, at: Rational },
    /// Host: replaces a block by a gap.
    ReplaceWithGap { track: NodeId, block: NodeId },
    /// Host: removes a node and its edges.
    RemoveNode { node: NodeId },
    /// Host: splits a block in two.
    Split { block: NodeId, at: Rational },
    /// Host: removes a span and closes it up.
    RippleRemove { track: NodeId, from: Rational, to: Rational },
    /// Host: trims a block's out point, the next block following.
    RollTrim { track: NodeId, block: NodeId, length: Rational },
    /// Host: adds a track to a list.
    AddTrack { list: NodeId },
    /// Host: removes a track from its list.
    RemoveTrack { track: NodeId },
}

/// One row of the undo history.
#[derive(Debug)]
pub struct Edit {
    pub name: &'static str,
    pub commands: Vec<Command>,
}

/// `blocks` with `block` behind the first occurrence of `anchor`, or at the
/// head without an anchor; unchanged when the anchor does not occur.
pub open spec fn inserted_after(
    blocks: Seq<NodeId>,
    block: NodeId,
    anchor: Option<NodeId>,
) -> Seq<NodeId> {
    match anchor {
        None => blocks.insert(0, block),
        Some(a) => match crate::list::position_of(blocks, a) {
            Some(i) => blocks.insert(i + 1, block),
            None => blocks,
        },
    }
}

impl crate::graph::GraphModel {
    /// The graph with the behavior of the node at `id` replaced.
    pub open spec fn with_behavior(
        self,
        id: NodeId,
        behavior: crate::graph::BehaviorModel,
    ) -> crate::graph::GraphModel {
        match self.node(id) {
            Some(n) => self.with_node(id, crate::graph::NodeModel { behavior, ..n }),
            None => self,
        }
    }

    /// The graph with the flag of the track at `id` set.
    pub open spec fn with_flag(
        self,
        id: NodeId,
        flag: TrackFlag,
        value: bool,
    ) -> crate::graph::GraphModel {
        match self.track(id) {
            Some(t) => self.with_behavior(
                id,
                crate::graph::BehaviorModel::Track(
                    match flag {
                        TrackFlag::Muted => crate::graph::TrackModel { muted: value, ..t },
                        TrackFlag::Locked => crate::graph::TrackModel { locked: value, ..t },
                    },
                ),
            ),
            None => self,
        }
    }

    /// The graph with the span of the block at `id` replaced.
    pub open spec fn with_span(self, id: NodeId, span: Span) -> crate::graph::GraphModel {
        match self.block(id) {
            Some(core) => self.with_block(id, respanned(core, span)),
            None => self,
        }
    }

    /// The graph with the transition at `id` replaced.
    pub open spec fn with_transition(
        self,
        id: NodeId,
        transition: Transition,
    ) -> crate::graph::GraphModel {
        match self.transition(id) {
            Some(_) => self.with_behavior(
                id,
                crate::graph::BehaviorModel::Transition(transition),
            ),
            None => self,
        }
    }

    /// The graph with the blocks of the track at `id` replaced.
    pub open spec fn with_blocks(self, id: NodeId, blocks: Seq<NodeId>) -> crate::graph::GraphModel {
        match self.track(id) {
            Some(t) => self.with_behavior(
                id,
                crate::graph::BehaviorModel::Track(crate::graph::TrackModel { blocks, ..t }),
            ),
            None => self,
        }
    }

    /// The graph with the block at `id` moved to `track`, its span unchanged.
    pub open spec fn with_owner(
        self,
        id: NodeId,
        track: Option<NodeId>,
    ) -> crate::graph::GraphModel {
        match self.block(id) {
            Some(core) => self.with_block(id, Block { track, ..core }),
            None => self,
        }
    }

    /// The graph with the children of the folder at `id` replaced.
    pub open spec fn with_children(
        self,
        id: NodeId,
        children: Seq<NodeId>,
    ) -> crate::graph::GraphModel {
        match self.folder(id) {
            Some(_) => self.with_behavior(id, crate::graph::BehaviorModel::Folder(children)),
            None => self,
        }
    }

    /// The graph with the folder that the node at `id` is mounted in noted.
    pub open spec fn with_bin(
        self,
        id: NodeId,
        folder: Option<NodeId>,
    ) -> crate::graph::GraphModel {
        match self.node(id) {
            Some(n) => self.with_node(
                id,
                crate::graph::NodeModel { bin_folder: folder, ..n },
            ),
            None => self,
        }
    }

    /// The graph with `child` mounted in `folder`.
    pub open spec fn mounted(self, folder: NodeId, child: NodeId) -> crate::graph::GraphModel {
        let noted = self.with_bin(child, Some(folder));
        match noted.folder(folder) {
            Some(c) => if c.contains(child) {
                noted
            } else {
                noted.with_children(folder, c.push(child))
            },
            None => noted,
        }
    }

    /// The graph with `child` taken out of `folder`.
    pub open spec fn unmounted(self, folder: NodeId, child: NodeId) -> crate::graph::GraphModel {
        let detached = match self.folder(folder) {
            Some(c) => self.with_children(folder, crate::list::without(c, child)),
            None => self,
        };
        detached.with_bin(child, None)
    }

    /// The graph with `block` entered into `track` behind `anchor`.
    pub open spec fn entered(
        self,
        track: NodeId,
        block: NodeId,
        anchor: Option<NodeId>,
    ) -> crate::graph::GraphModel {
        match self.track(track) {
            Some(t) => self.with_blocks(
                track,
                inserted_after(t.blocks, block, anchor),
            ).with_owner(block, Some(track)),
            None => self,
        }
    }

    /// The graph with `block` taken off `track`.
    pub open spec fn withdrawn(self, track: NodeId, block: NodeId) -> crate::graph::GraphModel {
        match self.track(track) {
            Some(t) => self.with_blocks(
                track,
                crate::list::without(t.blocks, block),
            ).with_owner(block, None),
            None => self,
        }
    }

    /// The graph after `command`; a command for the host changes nothing
    /// here.
    pub open spec fn redone(self, command: Command) -> crate::graph::GraphModel {
        match command {
            Command::SetSpan { block, before, after } => self.with_span(block, after),
            Command::SetTransition { transition, before, after } => self.with_transition(
                transition,
                after,
            ),
            Command::AddLink { from, to } => self.with_link(from, to),
            Command::LinkPair { a, b } => self.with_link(a, b).with_link(b, a),
            Command::Connect { from, to, port } => self.with_source(
                to,
                port_name(port),
                Some(from),
            ),
            Command::SetFlag { track, flag, before, after } => self.with_flag(track, flag, after),
            Command::InsertAfter { track, block, anchor } => self.entered(track, block, anchor),
            Command::AddChild { folder, child } => self.mounted(folder, child),
            _ => self,
        }
    }

    /// The graph after `command` is taken back.
    pub open spec fn undone(self, command: Command) -> crate::graph::GraphModel {
        match command {
            Command::SetSpan { block, before, after } => self.with_span(block, before),
            Command::SetTransition { transition, before, after } => self.with_transition(
                transition,
                before,
            ),
            Command::AddLink { from, to } => self.without_link(from, to),
            Command::LinkPair { a, b } => self.without_link(a, b).without_link(b, a),
            Command::Connect { from, to, port } => self.with_source(to, port_name(port), None),
            Command::SetFlag { track, flag, before, after } => self.with_flag(track, flag, before),
            Command::InsertAfter { track, block, anchor } => self.withdrawn(track, block),
            Command::AddChild { folder, child } => self.unmounted(folder, child),
            _ => self,
        }
    }

    /// The graph after `commands`, in order.
    pub open spec fn redone_all(self, commands: Seq<Command>) -> crate::graph::GraphModel
        decreases commands.len(),
    {
        if commands.len() == 0 {
            self
        } else {
            self.redone_all(commands.drop_last()).redone(commands.last())
        }
    }

    /// The graph after `commands` are taken back, the last one first.
    pub open spec fn undone_all(self, commands: Seq<Command>) -> crate::graph::GraphModel
        decreases commands.len(),
    {
        if commands.len() == 0 {
            self
        } else {
            self.undone(commands.last()).undone_all(commands.drop_last())
        }
    }
}

fn write_flag(g: &mut Graph, track: NodeId, flag: TrackFlag, value: bool)
    ensures
        final(g)@ == old(g)@.with_flag(track, flag, value),
{
    if let Some(node) = g.get_mut(track) {
        if let Behavior::Track(t) = &mut node.behavior {
            match flag {
                TrackFlag::Muted => {
                    t.muted = value;
                },
                TrackFlag::Locked => {
                    t.locked = value;
                },
            }
        }
    }
}

fn write_span(g: &mut Graph, id: NodeId, span: Span)
    ensures
        final(g)@ == old(g)@.with_span(id, span),
{
    if let Some(core) = block_core_of(g, id) {
        let after: Block = Block {
            in_point: span.in_point,
            out_point: span.out_point,
            media_in: span.media_in,
            ..core
        };
        g.set_block(id, after);
    }
}

fn write_transition(g: &mut Graph, id: NodeId, value: Transition)
    ensures
        final(g)@ == old(g)@.with_transition(id, value),
{
    if let Some(node) = g.get_mut(id) {
        if let Behavior::Transition(t) = &mut node.behavior {
            *t = value;
        }
    }
}

fn write_owner(g: &mut Graph, id: NodeId, track: Option<NodeId>)
    ensures
        final(g)@ == old(g)@.with_owner(id, track),
{
    if let Some(node) = g.get_mut(id) {
        match &mut node.behavior {
            Behavior::Clip(b) => {
                b.track = track;
            },
            Behavior::Gap(b) => {
                b.track = track;
            },
            Behavior::Transition(t) => {
                t.core.track = track;
            },
            Behavior::Adjustment(b) => {
                b.track = track;
            },
            _ => {},
        }
    }
}

fn enter(g: &mut Graph, track: NodeId, block: NodeId, anchor: Option<NodeId>)
    ensures
        final(g)@ == old(g)@.entered(track, block, anchor),
{
    let mut on_track: bool = false;
    let ghost start = g@;
    if let Some(node) = g.get_mut(track) {
        if let Behavior::Track(t) = &mut node.behavior {
            on_track = true;
            match anchor {
                None => {
                    t.blocks.insert(0, block);
                },
                Some(a) => {
                    if let Some(i) = position(&t.blocks, a) {
                        t.blocks.insert(i + 1, block);
                    }
                },
            }
        }
    }
    if on_track {
        write_owner(g, block, Some(track));
    }
}

fn withdraw(g: &mut Graph, track: NodeId, block: NodeId)
    ensures
        final(g)@ == old(g)@.withdrawn(track, block),
{
    let mut on_track: bool = false;
    if let Some(node) = g.get_mut(track) {
        if let Behavior::Track(t) = &mut node.behavior {
            on_track = true;
            t.blocks = retain_not(&t.blocks, block);
        }
    }
    if on_track {
        write_owner(g, block, None);
    }
}

fn write_bin(g: &mut Graph, id: NodeId, folder: Option<NodeId>)
    ensures
        final(g)@ == old(g)@.with_bin(id, folder),
{
    if let Some(node) = g.get_mut(id) {
        node.bin_folder = folder;
    }
}

/// Mounts `child` in `folder`.
pub fn mount(g: &mut Graph, folder: NodeId, child: NodeId)
    ensures
        final(g)@ == old(g)@.mounted(folder, child),
{
    write_bin(g, child, Some(folder));
    if let Some(node) = g.get_mut(folder) {
        if let Behavior::Folder(c) = &mut node.behavior {
            if !contains(c, child) {
                c.push(child);
            }
        }
    }
}

/// Takes `child` out of `folder`.
pub fn unmount(g: &mut Graph, folder: NodeId, child: NodeId)
    ensures
        final(g)@ == old(g)@.unmounted(folder, child),
{
    if let Some(node) = g.get_mut(folder) {
        if let Behavior::Folder(c) = &mut node.behavior {
            *c = retain_not(c, child);
        }
    }
    write_bin(g, child, None);
}

impl Command {
    /// Carries the command out.
    pub fn redo(&self, g: &mut Graph)
        ensures
            final(g)@ == old(g)@.redone(*self),
    {
        match *self {
            Command::SetSpan { block, before, after } => {
                write_span(g, block, after);
            },
            Command::SetTransition { transition, before, after } => {
                write_transition(g, transition, after);
            },
            Command::AddLink { from, to } => {
                g.add_link(from, to);
            },
            Command::LinkPair { a, b } => {
                g.add_link(a, b);
                g.add_link(b, a);
            },
            Command::Connect { from, to, port } => {
                g.set_source(to, port.id(), Some(from));
            },
            Command::SetFlag { track, flag, before, after } => {
                write_flag(g, track, flag, after);
            },
            Command::InsertAfter { track, block, anchor } => {
                enter(g, track, block, anchor);
            },
            Command::AddChild { folder, child } => {
                mount(g, folder, child);
            },
            _ => {},
        }
    }

    /// Takes the command back.
    pub fn undo(&self, g: &mut Graph)
        ensures
            final(g)@ == old(g)@.undone(*self),
    {
        match *self {
            Command::SetSpan { block, before, after } => {
                write_span(g, block, before);
            },
            Command::SetTransition { transition, before, after } => {
                write_transition(g, transition, before);
            },
            Command::AddLink { from, to } => {
                g.remove_link(from, to);
            },
            Command::LinkPair { a, b } => {
                g.remove_link(a, b);
                g.remove_link(b, a);
            },
            Command::Connect { from, to, port } => {
                g.set_source(to, port.id(), None);
            },
            Command::SetFlag { track, flag, before, after } => {
                write_flag(g, track, flag, before);
            },
            Command::InsertAfter { track, block, anchor } => {
                withdraw(g, track, block);
            },
            Command::AddChild { folder, child } => {
                unmount(g, folder, child);
            },
            _ => {},
        }
    }

    /// Whether the host carries the command out.
    pub fn is_for_host(&self) -> (b: bool)
        ensures
            b == for_host(*self),
    {
        match *self {
            Command::PlaceBlock { .. } => true,
            Command::MoveBlock { .. } => true,
            Command::ReplaceWithGap { .. } => true,
            Command::RemoveNode { .. } => true,
            Command::Split { .. } => true,
            Command::RippleRemove { .. } => true,
            Command::RollTrim { .. } => true,
            Command::AddTrack { .. } => true,
            Command::RemoveTrack { .. } => true,
            _ => false,
        }
    }
}

/// Whether the host carries `command` out.
pub open spec fn for_host(command: Command) -> bool {
    match command {
        Command::PlaceBlock { .. } => true,
        Command::MoveBlock { .. } => true,
        Command::ReplaceWithGap { .. } => true,
        Command::RemoveNode { .. } => true,
        Command::Split { .. } => true,
        Command::RippleRemove { .. } => true,
        Command::RollTrim { .. } => true,
        Command::AddTrack { .. } => true,
        Command::RemoveTrack { .. } => true,
        _ => false,
    }
}

impl Edit {
    /// Carries the commands out, in order.
    pub fn redo(&self, g: &mut Graph)
        ensures
            final(g)@ == old(g)@.redone_all(self.commands@),
    {
        let ghost start = g@;
        let mut i: usize = 0;
        while i < self.commands.len()
            invariant
                i <= self.commands.len(),
                g@ == start.redone_all(self.commands@.take(i as int)),
            decreases self.commands.len() - i,
        {
            proof {
                assert(self.commands@.take(i + 1).drop_last() == self.commands@.take(i as int));
            }
            self.commands[i].redo(g);
            i = i + 1;
        }
        assert(self.commands@.take(i as int) == self.commands@);
    }

    /// Takes the commands back, the last one first.
    pub fn undo(&self, g: &mut Graph)
        ensures
            final(g)@ == old(g)@.undone_all(self.commands@),
    {
        let ghost start = g@;
        let mut i: usize = self.commands.len();
        assert(self.commands@.take(i as int) == self.commands@);
        while i > 0
            invariant
                i <= self.commands.len(),
                g@.undone_all(self.commands@.take(i as int)) == start.undone_all(self.commands@),
            decreases i,
        {
            proof {
                assert(self.commands@.take(i as int).drop_last() == self.commands@.take(i - 1));
            }
            i = i - 1;
            self.commands[i].undo(g);
        }
    }
}

} // verus!
