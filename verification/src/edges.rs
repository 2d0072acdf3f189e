//! Undoable edges between nodes, and node positions in a context.

use crate::graph::{ContextPosition, Graph, NodeId};
use crate::text::joined;
use vstd::prelude::*;

verus! {

/// Why an edge is refused.
#[derive(Clone, Copy, Debug, PartialEq, Eq, Structural)]
pub enum EdgeError {
    /// An end of the edge is stale.
    NodeNotFound,
    /// The node to connect to has no such input.
    ConnectNoInput,
    /// The input takes no edges.
    NotConnectable,
    /// The input is fed already.
    AlreadyConnected,
    /// The node to disconnect has no such input.
    DisconnectNoInput,
    /// A node of the position is stale.
    PositionNotFound,
}

/// The text an edge error about `input` is reported with.
pub open spec fn edge_message(e: EdgeError, input: Seq<char>) -> Seq<char> {
    match e {
        EdgeError::NodeNotFound => "connect: node not found"@,
        EdgeError::ConnectNoInput => "connect: no input \""@ + input + "\""@,
        EdgeError::NotConnectable => "connect: input \""@ + input + "\" is not connectable"@,
        EdgeError::AlreadyConnected => "connect: input \""@ + input
            + "\" is already connected"@,
        EdgeError::DisconnectNoInput => "disconnect: no input \""@ + input + "\""@,
        EdgeError::PositionNotFound => "set position: node not found"@,
    }
}

impl EdgeError {
    /// The text the error about `input` is reported with.
    pub fn message(&self, input: &str) -> (r: String)
        ensures
            r@ == edge_message(*self, input@),
    {
        match *self {
            EdgeError::NodeNotFound => "connect: node not found".to_owned(),
            EdgeError::ConnectNoInput => joined(
                joined("connect: no input \"", input).as_str(),
                "\"",
            ),
            EdgeError::NotConnectable => joined(
                joined("connect: input \"", input).as_str(),
                "\" is not connectable",
            ),
            EdgeError::AlreadyConnected => joined(
                joined("connect: input \"", input).as_str(),
                "\" is already connected",
            ),
            EdgeError::DisconnectNoInput => joined(
                joined("disconnect: no input \"", input).as_str(),
                "\"",
            ),
            EdgeError::PositionNotFound => "set position: node not found".to_owned(),
        }
    }
}

/// An edge that is added, or removed when `adding` is false. A removal
/// remembers what fed the input.
#[derive(Debug)]
pub struct EdgeCommand {
    pub adding: bool,
    pub source: Option<NodeId>,
    pub to: NodeId,
    pub input: String,
}

impl EdgeCommand {
    /// Connects an edge that is added, disconnects one that is removed.
    pub fn redo(&self, g: &mut Graph)
        ensures
            final(g)@ == old(g)@.with_source(
                self.to,
                self.input@,
                if self.adding {
                    self.source
                } else {
                    None
                },
            ),
    {
        let source: Option<NodeId> = if self.adding {
            self.source
        } else {
            None
        };
        g.set_source(self.to, self.input.as_str(), source);
    }

    /// Disconnects an edge that was added, restores one that was removed. A
    /// removal that found no edge has nothing to restore.
    pub fn undo(&self, g: &mut Graph)
        ensures
            final(g)@ == if self.adding {
                old(g)@.with_source(self.to, self.input@, None)
            } else {
                match self.source {
                    Some(from) => old(g)@.with_source(self.to, self.input@, Some(from)),
                    None => old(g)@,
                }
            },
    {
        if self.adding {
            g.set_source(self.to, self.input.as_str(), None);
        } else if self.source.is_some() {
            g.set_source(self.to, self.input.as_str(), self.source);
        }
    }
}

/// Why connecting `from` to the input of `to` is refused.
pub open spec fn connect_refusal(
    g: crate::graph::GraphModel,
    from: NodeId,
    to: NodeId,
    input: Seq<char>,
) -> Option<EdgeError> {
    match (g.node(from), g.node(to)) {
        (Some(_), Some(n)) => match n.input(input) {
            None => Some(EdgeError::ConnectNoInput),
            Some(i) => if !n.inputs[i].connectable {
                Some(EdgeError::NotConnectable)
            } else if n.inputs[i].source is Some {
                Some(EdgeError::AlreadyConnected)
            } else {
                None
            },
        },
        _ => Some(EdgeError::NodeNotFound),
    }
}

/// An undoable edge from `from` to the input `input_id` of `to`: the ends
/// exist, and the input is there, takes edges and is free.
pub fn connect_command(g: &Graph, from: NodeId, to: NodeId, input_id: &str) -> (r: Result<
    EdgeCommand,
    EdgeError,
>)
    ensures
        match connect_refusal(g@, from, to, input_id@) {
            Some(e) => r == Err::<EdgeCommand, EdgeError>(e),
            None => {
                &&& r is Ok
                &&& r.unwrap().adding
                &&& r.unwrap().source == Some(from)
                &&& r.unwrap().to == to
                &&& r.unwrap().input@ == input_id@
            },
        },
{
    if !g.is_valid(from) {
        return Err(EdgeError::NodeNotFound);
    }
    let node = match g.get(to) {
        Some(node) => node,
        None => return Err(EdgeError::NodeNotFound),
    };
    let i: usize = match node.input(input_id) {
        Some(i) => i,
        None => return Err(EdgeError::ConnectNoInput),
    };
    assert(node@.inputs[i as int] == node.inputs@[i as int]@);
    if !node.inputs[i].connectable {
        return Err(EdgeError::NotConnectable);
    }
    if node.inputs[i].source.is_some() {
        return Err(EdgeError::AlreadyConnected);
    }
    Ok(EdgeCommand { adding: true, source: Some(from), to, input: input_id.to_owned() })
}

/// An undoable removal of the edge that feeds the input `input_id` of `to`.
/// An input that nothing feeds is left as it is; its undo is then nothing.
pub fn disconnect_command(g: &Graph, to: NodeId, input_id: &str) -> (r: Result<
    EdgeCommand,
    EdgeError,
>)
    ensures
        if g@.node(to) is Some && g@.node(to).unwrap().input(input_id@) is Some {
            &&& r is Ok
            &&& !r.unwrap().adding
            &&& r.unwrap().source == g@.connected_output(to, input_id@)
            &&& r.unwrap().to == to
            &&& r.unwrap().input@ == input_id@
        } else {
            r == Err::<EdgeCommand, EdgeError>(EdgeError::DisconnectNoInput)
        },
{
    let has_input: bool = match g.get(to) {
        Some(node) => node.input(input_id).is_some(),
        None => false,
    };
    if !has_input {
        return Err(EdgeError::DisconnectNoInput);
    }
    let source: Option<NodeId> = g.connected_output(to, input_id);
    Ok(EdgeCommand { adding: false, source, to, input: input_id.to_owned() })
}

proof fn lemma_input_at(inputs: Seq<crate::graph::InputModel>, id: Seq<char>, from: int)
    requires
        0 <= from,
    ensures
        match crate::graph::input_from(inputs, id, from) {
            Some(i) => from <= i < inputs.len(),
            None => true,
        },
    decreases inputs.len() - from,
{
    if from < inputs.len() {
        lemma_input_at(inputs, id, from + 1);
    }
}

proof fn lemma_input_kept(
    inputs: Seq<crate::graph::InputModel>,
    id: Seq<char>,
    from: int,
    at: int,
    source: Option<NodeId>,
)
    requires
        0 <= from,
        0 <= at < inputs.len(),
    ensures
        crate::graph::input_from(
            inputs.update(at, crate::graph::InputModel { source, ..inputs[at] }),
            id,
            from,
        ) == crate::graph::input_from(inputs, id, from),
    decreases inputs.len() - from,
{
    if from < inputs.len() {
        lemma_input_kept(inputs, id, from + 1, at, source);
    }
}

/// Disconnecting an input that nothing feeds changes nothing.
pub proof fn lemma_unfed_disconnect(g: crate::graph::GraphModel, to: NodeId, input: Seq<char>)
    requires
        g.connected_output(to, input) is None,
    ensures
        g.with_source(to, input, None) == g,
{
    if let Some(n) = g.node(to) {
        lemma_input_at(n.inputs, input, 0);
        if let Some(i) = n.input(input) {
            assert(n.fed(i, None).inputs =~= n.inputs);
            assert(n.fed(i, None) =~= n);
            assert(g.with_source(to, input, None).slots =~= g.slots);
        }
    }
}

/// Undoing an edge right after its redo restores the graph: an added edge is
/// gone again, and a removed one is back.
pub proof fn lemma_edge_undo(
    g: crate::graph::GraphModel,
    to: NodeId,
    input: Seq<char>,
    redone: Option<NodeId>,
)
    ensures
        g.with_source(to, input, redone).with_source(
            to,
            input,
            g.connected_output(to, input),
        ) == g,
{
    if let Some(n) = g.node(to) {
        lemma_input_at(n.inputs, input, 0);
        if let Some(i) = n.input(input) {
            lemma_input_kept(n.inputs, input, 0, i, redone);
            let fed = n.fed(i, redone);
            assert(fed.input(input) == Some(i));
            assert(fed.fed(i, n.inputs[i].source).inputs =~= n.inputs);
            assert(fed.fed(i, n.inputs[i].source) =~= n);
            assert(g.with_source(to, input, redone).with_source(
                to,
                input,
                g.connected_output(to, input),
            ).slots =~= g.slots);
        }
    }
}

/// A node's position in a context, set undoably; `before` is the position it
/// had there.
#[derive(Clone, Copy, Debug)]
pub struct PositionCommand {
    pub node: NodeId,
    pub after: ContextPosition,
    pub before: Option<ContextPosition>,
}

/// The index of the first position in `context` at or after `from`.
pub open spec fn position_index(
    positions: Seq<ContextPosition>,
    context: NodeId,
    from: int,
) -> Option<int>
    decreases positions.len() - from,
{
    if from < 0 || from >= positions.len() {
        None
    } else if positions[from].context == context {
        Some(from)
    } else {
        position_index(positions, context, from + 1)
    }
}

/// `positions` with the one in the context of `p` set to it.
pub open spec fn positioned(positions: Seq<ContextPosition>, p: ContextPosition) -> Seq<
    ContextPosition,
> {
    match position_index(positions, p.context, 0) {
        Some(i) => positions.update(i, p),
        None => positions.push(p),
    }
}

/// `positions` without the first one in `context`.
pub open spec fn unpositioned(positions: Seq<ContextPosition>, context: NodeId) -> Seq<
    ContextPosition,
> {
    match position_index(positions, context, 0) {
        Some(i) => positions.remove(i),
        None => positions,
    }
}

impl crate::graph::GraphModel {
    /// The graph with the positions of the node at `id` replaced.
    pub open spec fn with_positions(
        self,
        id: NodeId,
        positions: Seq<ContextPosition>,
    ) -> crate::graph::GraphModel {
        match self.node(id) {
            Some(n) => self.with_node(id, crate::graph::NodeModel { positions, ..n }),
            None => self,
        }
    }

    /// The position of the node at `id` in `context`.
    pub open spec fn position_in(self, id: NodeId, context: NodeId) -> Option<ContextPosition> {
        match self.node(id) {
            Some(n) => match position_index(n.positions, context, 0) {
                Some(i) => Some(n.positions[i]),
                None => None,
            },
            None => None,
        }
    }
}

fn find_position(positions: &Vec<ContextPosition>, context: NodeId) -> (r: Option<usize>)
    ensures
        match r {
            Some(i) => position_index(positions@, context, 0) == Some(i as int) && i
                < positions.len(),
            None => position_index(positions@, context, 0) is None,
        },
{
    let mut i: usize = 0;
    while i < positions.len()
        invariant
            i <= positions.len(),
            position_index(positions@, context, 0) == position_index(
                positions@,
                context,
                i as int,
            ),
        decreases positions.len() - i,
    {
        if positions[i].context == context {
            return Some(i);
        }
        i = i + 1;
    }
    None
}

impl PositionCommand {
    /// Sets the position.
    pub fn redo(&self, g: &mut Graph)
        ensures
            final(g)@ == (match old(g)@.node(self.node) {
                Some(n) => old(g)@.with_positions(
                    self.node,
                    positioned(n.positions, self.after),
                ),
                None => old(g)@,
            }),
    {
        if let Some(node) = g.get_mut(self.node) {
            match find_position(&node.positions, self.after.context) {
                Some(i) => {
                    node.positions[i] = self.after;
                },
                None => {
                    node.positions.push(self.after);
                },
            }
        }
    }

    /// Restores the position there was, or removes the one that was made.
    pub fn undo(&self, g: &mut Graph)
        ensures
            final(g)@ == (match old(g)@.node(self.node) {
                Some(n) => old(g)@.with_positions(
                    self.node,
                    match self.before {
                        Some(before) => positioned(n.positions, before),
                        None => unpositioned(n.positions, self.after.context),
                    },
                ),
                None => old(g)@,
            }),
    {
        if let Some(node) = g.get_mut(self.node) {
            match self.before {
                Some(before) => match find_position(&node.positions, before.context) {
                    Some(i) => {
                        node.positions[i] = before;
                    },
                    None => {
                        node.positions.push(before);
                    },
                },
                None => {
                    if let Some(i) = find_position(&node.positions, self.after.context) {
                        node.positions.remove(i);
                    }
                },
            }
        }
    }
}

/// An undoable position of `node` in `context`, collapsed; the coordinates
/// are the bit patterns of their doubles.
pub fn set_context_position_command(
    g: &Graph,
    node: NodeId,
    context: NodeId,
    x_bits: u64,
    y_bits: u64,
) -> (r: Result<PositionCommand, EdgeError>)
    ensures
        if g@.node(node) is Some && g@.node(context) is Some {
            r == Ok::<PositionCommand, EdgeError>(
                PositionCommand {
                    node,
                    after: ContextPosition { context, x_bits, y_bits, expanded: false },
                    before: g@.position_in(node, context),
                },
            )
        } else {
            r == Err::<PositionCommand, EdgeError>(EdgeError::PositionNotFound)
        },
{
    if !g.is_valid(context) {
        return Err(EdgeError::PositionNotFound);
    }
    match g.get(node) {
        None => Err(EdgeError::PositionNotFound),
        Some(n) => {
            let before: Option<ContextPosition> = match find_position(&n.positions, context) {
                Some(i) => Some(n.positions[i]),
                None => None,
            };
            Ok(
                PositionCommand {
                    node,
                    after: ContextPosition { context, x_bits, y_bits, expanded: false },
                    before,
                },
            )
        },
    }
}

pub(crate) proof fn lemma_position_index(positions: Seq<ContextPosition>, context: NodeId, from: int)
    requires
        0 <= from,
    ensures
        match position_index(positions, context, from) {
            Some(i) => from <= i < positions.len() && positions[i].context == context && forall|
                j: int,
            |
                from <= j < i ==> positions[j].context != context,
            None => forall|j: int| from <= j < positions.len() ==> positions[j].context != context,
        },
    decreases positions.len() - from,
{
    if from < positions.len() && positions[from].context != context {
        lemma_position_index(positions, context, from + 1);
    }
}

/// Undoing a position right after its redo restores the node's positions,
/// whether the redo moved an entry or made one.
pub proof fn lemma_position_undo(positions: Seq<ContextPosition>, after: ContextPosition)
    ensures
        match position_index(positions, after.context, 0) {
            Some(i) => positioned(positioned(positions, after), positions[i]) == positions,
            None => unpositioned(positioned(positions, after), after.context) == positions,
        },
{
    lemma_position_index(positions, after.context, 0);
    let now = positioned(positions, after);
    lemma_position_index(now, after.context, 0);
    match position_index(positions, after.context, 0) {
        Some(i) => {
            assert(now[i].context == after.context);
            assert(position_index(now, after.context, 0) == Some(i));
            assert(now.update(i, positions[i]) =~= positions);
        },
        None => {
            assert(now[positions.len() as int] == after);
            assert(position_index(now, after.context, 0) == Some(positions.len() as int));
            assert(now.remove(positions.len() as int) =~= positions);
        },
    }
}

} // verus!
