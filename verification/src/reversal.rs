//! Taking commands back restores the graph.

use crate::commands::{Command, TrackFlag};
use crate::graph::{Block, NodeId};
use vstd::prelude::*;

verus! {

/// Whether `command` meets the state it was recorded for: what it is about
/// to write is not there yet, and what it remembers is.
pub open spec fn reversible(g: crate::graph::GraphModel, command: Command) -> bool {
    match command {
        Command::SetSpan { block, before, after } => match g.block(block) {
            Some(core) => crate::commands::span_of(core) == before,
            None => true,
        },
        Command::SetTransition { transition, before, after } => g.transition(transition) == Some(
            before,
        ),
        Command::AddLink { from, to } => !g.links(from).contains(to),
        Command::LinkPair { a, b } => !g.links(a).contains(b) && !g.links(b).contains(a),
        Command::Connect { from, to, port } => g.connected_output(
            to,
            crate::commands::port_name(port),
        ) is None,
        Command::SetFlag { track, flag, before, after } => match g.track(track) {
            Some(t) => before == (match flag {
                TrackFlag::Muted => t.muted,
                TrackFlag::Locked => t.locked,
            }),
            None => true,
        },
        Command::InsertAfter { track, block, anchor } => {
            &&& g.track(track) is Some ==> !g.track(track).unwrap().blocks.contains(block)
            &&& g.track_of(block) is None
        },
        Command::AddChild { folder, child } => {
            &&& g.folder(folder) is Some ==> !g.folder(folder).unwrap().contains(child)
            &&& g.node(child) is Some ==> g.node(child).unwrap().bin_folder is None
        },
        _ => true,
    }
}

/// Whether each of `commands` is reversible where its turn comes.
pub open spec fn reversible_all(g: crate::graph::GraphModel, commands: Seq<Command>) -> bool
    decreases commands.len(),
{
    commands.len() == 0 || (reversible_all(g, commands.drop_last()) && reversible(
        g.redone_all(commands.drop_last()),
        commands.last(),
    ))
}

proof fn lemma_input_from_bound(inputs: Seq<crate::graph::InputModel>, id: Seq<char>, from: int)
    requires
        0 <= from,
    ensures
        match crate::graph::input_from(inputs, id, from) {
            Some(i) => from <= i < inputs.len() && inputs[i].id == id && inputs[i].element == -1,
            None => true,
        },
    decreases inputs.len() - from,
{
    if from < inputs.len() && !(inputs[from].id == id && inputs[from].element == -1) {
        lemma_input_from_bound(inputs, id, from + 1);
    }
}

proof fn lemma_input_from_fed(
    inputs: Seq<crate::graph::InputModel>,
    id: Seq<char>,
    from: int,
    at: int,
    source: Option<NodeId>,
)
    requires
        0 <= from,
        0 <= at < inputs.len(),
    ensures
        crate::graph::input_from(
            inputs.update(at, crate::graph::InputModel { source, ..inputs[at] }),
            id,
            from,
        ) == crate::graph::input_from(inputs, id, from),
    decreases inputs.len() - from,
{
    let fed = inputs.update(at, crate::graph::InputModel { source, ..inputs[at] });
    if from < inputs.len() {
        assert(fed[from].id == inputs[from].id && fed[from].element == inputs[from].element);
        lemma_input_from_fed(inputs, id, from + 1, at, source);
    }
}

proof fn lemma_without_inserted(s: Seq<u64>, at: int, x: u64)
    requires
        0 <= at <= s.len(),
        !s.contains(x),
    ensures
        crate::list::without(s.insert(at, x), x) == s,
    decreases s.len() - at,
{
    let t = s.insert(at, x);
    if at == s.len() {
        assert(t.drop_last() == s);
        assert(t.last() == x);
        crate::list::lemma_without_absent(s, x);
    } else {
        let init = s.drop_last();
        assert forall|y: u64| init.contains(y) implies s.contains(y) by {
            let i = choose|i: int| 0 <= i < init.len() && init[i] == y;
            assert(s[i] == y);
        }
        lemma_without_inserted(init, at, x);
        assert(t.drop_last() == init.insert(at, x));
        assert(t.last() == s.last());
        assert(s.contains(s.last()));
        assert(init.push(s.last()) == s);
    }
}

proof fn lemma_without_pushed(s: Seq<u64>, x: u64)
    requires
        !s.contains(x),
    ensures
        crate::list::without(s.push(x), x) == s,
{
    assert(s.push(x).drop_last() == s);
    crate::list::lemma_without_absent(s, x);
}

proof fn lemma_link_reversal(g: crate::graph::GraphModel, from: NodeId, to: NodeId)
    requires
        !g.links(from).contains(to),
    ensures
        g.with_link(from, to).without_link(from, to) == g,
{
    if let Some(n) = g.node(from) {
        lemma_without_pushed(n.links, to);
        assert(g.with_link(from, to).without_link(from, to).slots =~= g.slots);
    }
}

proof fn lemma_link_pair_reversal(g: crate::graph::GraphModel, a: NodeId, b: NodeId)
    requires
        !g.links(a).contains(b),
        !g.links(b).contains(a),
    ensures
        g.with_link(a, b).with_link(b, a).without_link(a, b).without_link(b, a) == g,
{
    if a == b {
        lemma_link_reversal(g, a, b);
        if let Some(n) = g.node(a) {
            let linked = g.with_link(a, b);
            assert(n.links.push(b)[n.links.len() as int] == b);
            assert(linked.with_link(b, a) == linked);
            crate::list::lemma_without_absent(n.links, b);
            assert(g.without_link(a, b).slots =~= g.slots);
        }
    } else {
        let one = g.with_link(a, b);
        let two = one.with_link(b, a);
        if let Some(n) = g.node(a) {
            lemma_without_pushed(n.links, b);
        }
        if let Some(n) = g.node(b) {
            lemma_without_pushed(n.links, a);
        }
        assert(two.without_link(a, b).without_link(b, a).slots =~= g.slots);
    }
}

proof fn lemma_connect_reversal(
    g: crate::graph::GraphModel,
    to: NodeId,
    input: Seq<char>,
    from: NodeId,
)
    requires
        g.connected_output(to, input) is None,
    ensures
        g.with_source(to, input, Some(from)).with_source(to, input, None) == g,
{
    if let Some(n) = g.node(to) {
        lemma_input_from_bound(n.inputs, input, 0);
        if let Some(i) = n.input(input) {
            lemma_input_from_fed(n.inputs, input, 0, i, Some(from));
            let fed = n.fed(i, Some(from));
            assert(fed.input(input) == Some(i));
            assert(fed.fed(i, None).inputs =~= n.inputs);
            assert(fed.fed(i, None) =~= n);
            assert(g.with_source(to, input, Some(from)).with_source(to, input, None).slots
                =~= g.slots);
        }
    }
}

proof fn lemma_insert_reversal(
    g: crate::graph::GraphModel,
    track: NodeId,
    block: NodeId,
    anchor: Option<NodeId>,
)
    requires
        g.track(track) is Some ==> !g.track(track).unwrap().blocks.contains(block),
        g.track_of(block) is None,
    ensures
        g.entered(track, block, anchor).withdrawn(track, block) == g,
{
    if let Some(t) = g.track(track) {
        let blocks = crate::commands::inserted_after(t.blocks, block, anchor);
        assert(crate::list::without(blocks, block) == t.blocks) by {
            match anchor {
                None => {
                    lemma_without_inserted(t.blocks, 0, block);
                },
                Some(a) => {
                    crate::list::lemma_position(t.blocks, a);
                    match crate::list::position_of(t.blocks, a) {
                        Some(i) => {
                            lemma_without_inserted(t.blocks, i + 1, block);
                        },
                        None => {
                            crate::list::lemma_without_absent(t.blocks, block);
                        },
                    }
                },
            }
        }
        let after = g.entered(track, block, anchor);
        assert(after.track(track) == Some(crate::graph::TrackModel { blocks, ..t }));
        if let Some(core) = g.block(block) {
            assert(after.block(block) == Some(Block { track: Some(track), ..core }));
            assert(after.withdrawn(track, block).slots =~= g.slots);
        } else {
            assert(after.block(block) is None);
            assert(after.withdrawn(track, block).slots =~= g.slots);
        }
    }
}

proof fn lemma_mount_reversal(g: crate::graph::GraphModel, folder: NodeId, child: NodeId)
    requires
        g.folder(folder) is Some ==> !g.folder(folder).unwrap().contains(child),
        g.node(child) is Some ==> g.node(child).unwrap().bin_folder is None,
    ensures
        g.mounted(folder, child).unmounted(folder, child) == g,
{
    let after = g.mounted(folder, child);
    if let Some(c) = g.folder(folder) {
        lemma_without_pushed(c, child);
        assert(after.folder(folder) == Some(c.push(child)));
        assert(after.unmounted(folder, child).slots =~= g.slots);
    } else {
        assert(after.unmounted(folder, child).slots =~= g.slots);
    }
}

/// Undoing a command right after its redo restores the graph exactly.
pub proof fn lemma_undo_redo(g: crate::graph::GraphModel, command: Command)
    requires
        reversible(g, command),
    ensures
        g.redone(command).undone(command) == g,
{
    match command {
        Command::SetSpan { block, before, after } => {
            assert(g.redone(command).undone(command).slots =~= g.slots);
        },
        Command::SetTransition { transition, before, after } => {
            assert(g.redone(command).undone(command).slots =~= g.slots);
        },
        Command::AddLink { from, to } => {
            lemma_link_reversal(g, from, to);
        },
        Command::LinkPair { a, b } => {
            lemma_link_pair_reversal(g, a, b);
        },
        Command::Connect { from, to, port } => {
            lemma_connect_reversal(g, to, crate::commands::port_name(port), from);
        },
        Command::SetFlag { track, flag, before, after } => {
            if let Some(t) = g.track(track) {
                assert(g.redone(command).undone(command).slots =~= g.slots);
            }
        },
        Command::InsertAfter { track, block, anchor } => {
            lemma_insert_reversal(g, track, block, anchor);
        },
        Command::AddChild { folder, child } => {
            lemma_mount_reversal(g, folder, child);
        },
        _ => {},
    }
}

/// Undoing an edit right after its redo restores the graph exactly.
pub proof fn lemma_undo_redo_all(g: crate::graph::GraphModel, commands: Seq<Command>)
    requires
        reversible_all(g, commands),
    ensures
        g.redone_all(commands).undone_all(commands) == g,
    decreases commands.len(),
{
    if commands.len() > 0 {
        let init = commands.drop_last();
        lemma_undo_redo(g.redone_all(init), commands.last());
        lemma_undo_redo_all(g, init);
    }
}

/// Redoing an edit that was undone gives the state it had given before, so
/// undo and redo cycles converge.
pub proof fn lemma_cycles_converge(g: crate::graph::GraphModel, commands: Seq<Command>)
    requires
        reversible_all(g, commands),
    ensures
        g.redone_all(commands).undone_all(commands).redone_all(commands) == g.redone_all(commands),
{
    lemma_undo_redo_all(g, commands);
}

/// The undo of a one-way link leaves every other link alone, one added
/// after it included.
pub proof fn lemma_link_undo_is_incremental(
    g: crate::graph::GraphModel,
    from: NodeId,
    to: NodeId,
    other: NodeId,
)
    requires
        other != to,
    ensures
        g.undone(Command::AddLink { from, to }).links(from).contains(other) == g.links(
            from,
        ).contains(other),
{
    if let Some(n) = g.node(from) {
        crate::list::lemma_without_contains(n.links, to, other);
    }
}

} // verus!
