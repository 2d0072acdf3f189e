//! Placing clips: rows that can be taken back, and groups that end up linked.

use crate::clipboard::CopyModel;
use crate::commands::{Command, Port};
use crate::graph::{Block, NodeId, TrackType, TEXTURE_INPUT};
use crate::placement::ClipPlan;
use crate::rational::Rational;
use vstd::prelude::*;

verus! {

/// The node whose input a command feeds.
pub open spec fn fed_node(command: Command) -> Option<NodeId> {
    match command {
        Command::Connect { from, to, port } => Some(to),
        _ => None,
    }
}

/// Whether a command places a block, or feeds the picture of one.
pub open spec fn places(command: Command) -> bool {
    ||| command is PlaceBlock
    ||| command matches Command::Connect { from, to, port } && port == Port::Texture
}

/// Whether `commands` place blocks and feed their pictures, each picture once
/// and none that is fed already.
pub open spec fn places_fresh(g: crate::graph::GraphModel, commands: Seq<Command>) -> bool {
    &&& forall|i: int| 0 <= i < commands.len() ==> places(#[trigger] commands[i])
    &&& forall|i: int, j: int|
        0 <= i < j < commands.len() && fed_node(#[trigger] commands[i]) is Some ==> fed_node(
            commands[i],
        ) != fed_node(#[trigger] commands[j])
    &&& forall|i: int|
        0 <= i < commands.len() ==> (fed_node(#[trigger] commands[i]) matches Some(to)
            ==> g.connected_output(to, TEXTURE_INPUT@) is None)
}

/// Whether `commands` feed an input of the node at `id`.
pub open spec fn feeds(commands: Seq<Command>, id: NodeId) -> bool {
    exists|i: int| 0 <= i < commands.len() && fed_node(#[trigger] commands[i]) == Some(id)
}

proof fn lemma_placing(g: crate::graph::GraphModel, commands: Seq<Command>)
    requires
        places_fresh(g, commands),
    ensures
        crate::reversal::reversible_all(g, commands),
        forall|id: NodeId|
            (#[trigger] g.redone_all(commands).node(id)) is Some <==> g.node(id) is Some,
        forall|id: NodeId| #[trigger] g.redone_all(commands).links(id) == g.links(id),
        forall|id: NodeId|
            !feeds(commands, id) ==> #[trigger] g.redone_all(commands).node(id) == g.node(id),
    decreases commands.len(),
{
    if commands.len() > 0 {
        let init = commands.drop_last();
        let last = commands[commands.len() - 1];
        assert forall|i: int| 0 <= i < init.len() implies init[i] == commands[i] by {}
        assert(places_fresh(g, init)) by {
            assert forall|i: int| 0 <= i < init.len() implies places(#[trigger] init[i]) by {
                assert(places(commands[i]));
            }
            assert forall|i: int, j: int|
                0 <= i < j < init.len() && fed_node(#[trigger] init[i]) is Some implies fed_node(
                init[i],
            ) != fed_node(#[trigger] init[j]) by {
                assert(fed_node(commands[i]) != fed_node(commands[j]));
            }
            assert forall|i: int| 0 <= i < init.len() implies (fed_node(
                #[trigger] init[i],
            ) matches Some(to) ==> g.connected_output(to, TEXTURE_INPUT@) is None) by {
                assert(fed_node(commands[i]) == fed_node(init[i]));
            }
        }
        lemma_placing(g, init);
        let mid = g.redone_all(init);
        assert(places(last));
        assert forall|id: NodeId| feeds(init, id) implies feeds(commands, id) by {
            let i = choose|i: int| 0 <= i < init.len() && fed_node(#[trigger] init[i]) == Some(id);
            assert(fed_node(commands[i]) == Some(id));
        }
        match last {
            Command::Connect { from, to, port } => {
                assert(fed_node(commands[commands.len() - 1]) == Some(to));
                assert(feeds(commands, to));
                assert(!feeds(init, to)) by {
                    if feeds(init, to) {
                        let i = choose|i: int|
                            0 <= i < init.len() && fed_node(#[trigger] init[i]) == Some(to);
                        assert(fed_node(commands[i]) != fed_node(commands[commands.len() - 1]));
                    }
                }
                assert(mid.node(to) == g.node(to));
                assert(g.redone_all(commands) == mid.with_source(to, TEXTURE_INPUT@, Some(from)));
            },
            _ => {
                assert(g.redone_all(commands) == mid);
            },
        }
        let now = g.redone_all(commands);
        assert forall|id: NodeId| (#[trigger] now.node(id)) is Some <==> g.node(id) is Some by {
            assert(mid.node(id) is Some <==> g.node(id) is Some);
        }
        assert forall|id: NodeId| #[trigger] now.links(id) == g.links(id) by {
            assert(mid.links(id) == g.links(id));
        }
        assert forall|id: NodeId| !feeds(commands, id) implies #[trigger] now.node(id) == g.node(
            id,
        ) by {
            assert(mid.node(id) == g.node(id));
        }
    }
}

/// A clip that was just created: nothing is linked, and its picture is unfed.
pub open spec fn is_fresh(node: Option<crate::graph::NodeModel>) -> bool {
    node matches Some(n) && n.links.len() == 0 && n.inputs.len() == 1 && n.inputs[0].id
        == TEXTURE_INPUT@ && n.inputs[0].element == -1 && n.inputs[0].source is None
}

proof fn lemma_clip_is_fresh(label: Seq<char>, color: i32, core: Block)
    ensures
        is_fresh(Some(crate::placement::clip_node(label, color, core))),
{
}

/// Placing a clip that was just created can be taken back. With it done, the
/// clip's picture is fed by its source.
pub proof fn lemma_placed_clip(
    g: crate::graph::GraphModel,
    label: Seq<char>,
    color: i32,
    core: Block,
    plan: ClipPlan,
    track_index: usize,
    source: NodeId,
)
    requires
        g.slots.len() < u64::MAX,
    ensures
        ({
            let id = g.next_id();
            let now = g.appended(crate::placement::clip_node(label, color, core));
            let commands = crate::placement::place_commands(plan, track_index, id, source);
            &&& crate::reversal::reversible_all(now, commands)
            &&& now.redone_all(commands).undone_all(commands) == now
            &&& now.redone_all(commands).connected_output(id, TEXTURE_INPUT@) == Some(source)
        }),
{
    let id = g.next_id();
    let now = g.appended(crate::placement::clip_node(label, color, core));
    let commands = crate::placement::place_commands(plan, track_index, id, source);
    lemma_clip_is_fresh(label, color, core);
    let clip = crate::placement::clip_node(label, color, core);
    assert(now.node(id) == Some(clip));
    assert(now.connected_output(id, TEXTURE_INPUT@) is None);
    let place = commands[0];
    let wire = commands[1];
    assert(places_fresh(now, commands));
    lemma_placing(now, commands);
    crate::reversal::lemma_undo_redo_all(now, commands);
    assert(commands.drop_last() =~= seq![place]);
    assert(seq![place].drop_last() =~= Seq::empty());
    assert(now.redone_all(Seq::empty()) == now);
    assert(now.redone_all(seq![place]) == now);
    assert(now.redone_all(commands) == now.redone(wire));
    lemma_fed(now, id, source);
}

proof fn lemma_fed(g: crate::graph::GraphModel, id: NodeId, source: NodeId)
    requires
        is_fresh(g.node(id)),
    ensures
        g.with_source(id, TEXTURE_INPUT@, Some(source)).connected_output(id, TEXTURE_INPUT@)
            == Some(source),
{
    let n = g.node(id).unwrap();
    let fed = n.fed(0, Some(source));
    assert(fed.inputs[0].id == n.inputs[0].id && fed.inputs[0].element == n.inputs[0].element);
    assert(fed.input(TEXTURE_INPUT@) == Some(0int));
}

proof fn lemma_with_clips(
    g: crate::graph::GraphModel,
    footage: NodeId,
    media_in: Rational,
    length: Rational,
    n: nat,
)
    requires
        g.slots.len() + n < u64::MAX,
    ensures
        ({
            let after = crate::links::with_clips(g, footage, media_in, length, n);
            &&& after.slots.len() == g.slots.len() + n
            &&& forall|id: NodeId|
                id < g.slots.len() ==> #[trigger] after.node(id) == g.node(id)
            &&& forall|id: NodeId|
                g.slots.len() <= id < g.slots.len() + n ==> is_fresh(#[trigger] after.node(id))
        }),
    decreases n,
{
    if n > 0 {
        let before = crate::links::with_clips(g, footage, media_in, length, (n - 1) as nat);
        let after = crate::links::with_clips(g, footage, media_in, length, n);
        lemma_with_clips(g, footage, media_in, length, (n - 1) as nat);
        assert forall|id: NodeId|
            id < g.slots.len() implies #[trigger] after.node(id) == g.node(id) by {
            assert(before.node(id) == g.node(id));
        }
        assert forall|id: NodeId|
            g.slots.len() <= id < g.slots.len() + n implies is_fresh(
            #[trigger] after.node(id),
        ) by {
            if id < g.slots.len() + n - 1 {
                assert(after.node(id) == before.node(id));
                assert(is_fresh(before.node(id)));
            } else {
                lemma_clip_is_fresh(
                    crate::queries::display_name(before, footage),
                    crate::queries::color_index(before.next_id()),
                    crate::placement::unplaced_clip(media_in, length),
                );
            }
        }
    }
}

proof fn lemma_placements(
    g: crate::graph::GraphModel,
    seq: NodeId,
    footage: NodeId,
    clips: Seq<NodeId>,
    placements: Seq<(TrackType, usize)>,
    at: Rational,
)
    requires
        crate::links::placements_commands(g, seq, footage, clips, placements, at) is Ok,
        placements.len() <= clips.len(),
    ensures
        ({
            let commands = crate::links::placements_commands(
                g,
                seq,
                footage,
                clips,
                placements,
                at,
            ).unwrap();
            &&& commands.len() == 2 * placements.len()
            &&& forall|k: int|
                0 <= k < placements.len() ==> (#[trigger] commands[2 * k]) is PlaceBlock
            &&& forall|k: int|
                0 <= k < placements.len() ==> (#[trigger] commands[2 * k + 1]) == (
                Command::Connect { from: footage, to: clips[k], port: Port::Texture })
        }),
    decreases placements.len(),
{
    if placements.len() > 0 {
        lemma_placements(g, seq, footage, clips, placements.drop_last(), at);
    }
}

/// Placing linked clips of one footage can be taken back. With it done, every
/// clip is linked to every other.
pub proof fn lemma_linked_placement(
    g: crate::graph::GraphModel,
    seq: NodeId,
    footage: NodeId,
    placements: Seq<(TrackType, usize)>,
    at: Rational,
    media_in: Rational,
    length: Rational,
)
    requires
        g.slots.len() + placements.len() < u64::MAX,
        crate::links::placements_commands(
            crate::links::with_clips(g, footage, media_in, length, placements.len()),
            seq,
            footage,
            crate::links::next_ids(g, placements.len()),
            placements,
            at,
        ) is Ok,
    ensures
        ({
            let now = crate::links::with_clips(g, footage, media_in, length, placements.len());
            let ids = crate::links::next_ids(g, placements.len());
            let commands = crate::links::placements_commands(
                now,
                seq,
                footage,
                ids,
                placements,
                at,
            ).unwrap() + crate::links::group_links(ids, ids.len());
            &&& crate::reversal::reversible_all(now, commands)
            &&& now.redone_all(commands).undone_all(commands) == now
            &&& forall|i: int, j: int|
                0 <= i < ids.len() && 0 <= j < ids.len() && i != j ==> now.redone_all(
                    commands,
                ).links(#[trigger] ids[i]).contains(#[trigger] ids[j])
        }),
{
    let now = crate::links::with_clips(g, footage, media_in, length, placements.len());
    let ids = crate::links::next_ids(g, placements.len());
    let placed = crate::links::placements_commands(
        now,
        seq,
        footage,
        ids,
        placements,
        at,
    ).unwrap();
    let links = crate::links::group_links(ids, ids.len());
    lemma_with_clips(g, footage, media_in, length, placements.len());
    lemma_placements(now, seq, footage, ids, placements, at);
    assert(places_fresh(now, placed)) by {
        assert forall|i: int| 0 <= i < placed.len() implies places(#[trigger] placed[i]) by {
            if i % 2 == 0 {
                assert(placed[2 * (i / 2)] is PlaceBlock);
            } else {
                assert(placed[2 * (i / 2) + 1] == (Command::Connect {
                    from: footage,
                    to: ids[i / 2],
                    port: Port::Texture,
                }));
            }
        }
        assert forall|i: int| 0 <= i < placed.len() implies fed_node(#[trigger] placed[i])
            == if i % 2 == 0 {
            None
        } else {
            Some(ids[i / 2])
        } by {
            if i % 2 == 0 {
                assert(placed[2 * (i / 2)] is PlaceBlock);
            } else {
                assert(placed[2 * (i / 2) + 1] is Connect);
            }
        }
        assert forall|i: int| 0 <= i < placed.len() implies (fed_node(
            #[trigger] placed[i],
        ) matches Some(to) ==> now.connected_output(to, TEXTURE_INPUT@) is None) by {
            if i % 2 != 0 {
                assert(is_fresh(now.node(ids[i / 2])));
            }
        }
    }
    lemma_placing(now, placed);
    let wired = now.redone_all(placed);
    assert(ids.no_duplicates());
    assert forall|i: int, j: int| 0 <= i < ids.len() && 0 <= j < ids.len() implies !wired.links(
        #[trigger] ids[i],
    ).contains(#[trigger] ids[j]) by {
        assert(is_fresh(now.node(ids[i])));
        assert(wired.links(ids[i]) == now.links(ids[i]));
    }
    crate::link_laws::lemma_group_links_reversible(wired, ids);
    crate::transition_laws::lemma_redone_concat(now, placed, links);
    crate::reversal::lemma_undo_redo_all(now, placed + links);
    assert forall|i: int, j: int|
        0 <= i < ids.len() && 0 <= j < ids.len() && i != j implies now.redone_all(
        placed + links,
    ).links(#[trigger] ids[i]).contains(#[trigger] ids[j]) by {
        assert(is_fresh(now.node(ids[i])));
        assert(wired.node(ids[i]) is Some);
        crate::link_laws::lemma_group_is_linked(wired, ids, i, j);
    }
}

/// Whether a command places, feeds or links clips.
pub open spec fn places_or_links(command: Command) -> bool {
    places(command) || command is AddLink || command is LinkPair
}

/// Whether one of `commands` links `x` to `y`.
pub open spec fn links_to(commands: Seq<Command>, x: NodeId, y: NodeId) -> bool {
    ||| commands.contains(Command::AddLink { from: x, to: y })
    ||| commands.contains(Command::LinkPair { a: x, b: y })
    ||| commands.contains(Command::LinkPair { a: y, b: x })
}

proof fn lemma_last_or_before(commands: Seq<Command>, c: Command)
    requires
        commands.len() > 0,
    ensures
        commands.contains(c) == (commands.drop_last().contains(c) || commands.last() == c),
{
    let init = commands.drop_last();
    if commands.contains(c) {
        let i = choose|i: int| 0 <= i < commands.len() && commands[i] == c;
        if i < init.len() {
            assert(init[i] == c);
        }
    }
    if init.contains(c) {
        let i = choose|i: int| 0 <= i < init.len() && init[i] == c;
        assert(commands[i] == c);
    }
    assert(commands[commands.len() - 1] == commands.last());
}

/// Taking back a row that places and links clips drops exactly the links that
/// it makes, from whatever graph.
proof fn lemma_undone_links(
    later: crate::graph::GraphModel,
    commands: Seq<Command>,
    x: NodeId,
    y: NodeId,
)
    requires
        forall|i: int| 0 <= i < commands.len() ==> places_or_links(#[trigger] commands[i]),
    ensures
        later.undone_all(commands).links(x).contains(y) == (later.links(x).contains(y)
            && !links_to(commands, x, y)),
    decreases commands.len(),
{
    if commands.len() > 0 {
        let init = commands.drop_last();
        let last = commands.last();
        assert(places_or_links(commands[commands.len() - 1]));
        assert forall|i: int| 0 <= i < init.len() implies places_or_links(#[trigger] init[i]) by {
            assert(places_or_links(commands[i]));
        }
        let mid = later.undone(last);
        lemma_undone_links(mid, init, x, y);
        lemma_last_or_before(commands, Command::AddLink { from: x, to: y });
        lemma_last_or_before(commands, Command::LinkPair { a: x, b: y });
        lemma_last_or_before(commands, Command::LinkPair { a: y, b: x });
        match last {
            Command::AddLink { from, to } => {
                crate::link_laws::lemma_unlinked_from(later, from, to, x, y);
            },
            Command::LinkPair { a, b } => {
                crate::link_laws::lemma_unlinked_from(later, a, b, x, y);
                crate::link_laws::lemma_unlinked_from(later.without_link(a, b), b, a, x, y);
            },
            _ => {
                assert(mid.links(x) == later.links(x));
            },
        }
    }
}

/// Undoing a linked placement drops the links between its own clips and no
/// others: a link to another node stays, also one that was made later.
pub proof fn lemma_linked_placement_undo(
    g: crate::graph::GraphModel,
    seq: NodeId,
    footage: NodeId,
    placements: Seq<(TrackType, usize)>,
    at: Rational,
    media_in: Rational,
    length: Rational,
    later: crate::graph::GraphModel,
    x: NodeId,
    y: NodeId,
)
    requires
        g.slots.len() + placements.len() < u64::MAX,
        crate::links::placements_commands(
            crate::links::with_clips(g, footage, media_in, length, placements.len()),
            seq,
            footage,
            crate::links::next_ids(g, placements.len()),
            placements,
            at,
        ) is Ok,
    ensures
        ({
            let now = crate::links::with_clips(g, footage, media_in, length, placements.len());
            let ids = crate::links::next_ids(g, placements.len());
            let commands = crate::links::placements_commands(
                now,
                seq,
                footage,
                ids,
                placements,
                at,
            ).unwrap() + crate::links::group_links(ids, ids.len());
            later.undone_all(commands).links(x).contains(y) == (later.links(x).contains(y) && !(
            ids.contains(x) && ids.contains(y) && x != y))
        }),
{
    let now = crate::links::with_clips(g, footage, media_in, length, placements.len());
    let ids = crate::links::next_ids(g, placements.len());
    let placed = crate::links::placements_commands(
        now,
        seq,
        footage,
        ids,
        placements,
        at,
    ).unwrap();
    let links = crate::links::group_links(ids, ids.len());
    let commands = placed + links;
    lemma_placements(now, seq, footage, ids, placements, at);
    assert(ids.no_duplicates());
    crate::link_laws::lemma_group_commands(ids, x, y);
    assert forall|i: int| 0 <= i < placed.len() implies places(#[trigger] placed[i]) by {
        if i % 2 == 0 {
            assert(placed[2 * (i / 2)] is PlaceBlock);
        } else {
            assert(placed[2 * (i / 2) + 1] is Connect);
        }
    }
    assert forall|i: int| 0 <= i < commands.len() implies places_or_links(
        #[trigger] commands[i],
    ) && !(commands[i] is LinkPair) && (commands[i] is AddLink ==> i >= placed.len()) by {
        if i < placed.len() {
            assert(commands[i] == placed[i]);
        } else {
            assert(commands[i] == links[i - placed.len()]);
        }
    }
    let link = Command::AddLink { from: x, to: y };
    assert(commands.contains(link) == links.contains(link)) by {
        if commands.contains(link) {
            let k = choose|k: int| 0 <= k < commands.len() && commands[k] == link;
            assert(links[k - placed.len()] == link);
        }
        if links.contains(link) {
            let k = choose|k: int| 0 <= k < links.len() && links[k] == link;
            assert(commands[placed.len() + k] == link);
        }
    }
    lemma_undone_links(later, commands, x, y);
}

proof fn lemma_pasted(
    g: crate::graph::GraphModel,
    seq: NodeId,
    tb: (i64, i64),
    items: Seq<CopyModel>,
    anchor: i64,
    playhead_ts: i64,
)
    requires
        g.slots.len() + items.len() < u64::MAX,
        crate::clipboard::with_items(g, seq, tb, items, anchor, playhead_ts).error is None,
    ensures
        ({
            let p = crate::clipboard::with_items(g, seq, tb, items, anchor, playhead_ts);
            &&& p.graph.slots.len() == g.slots.len() + items.len()
            &&& p.ids == crate::links::next_ids(g, items.len())
            &&& forall|id: NodeId|
                g.slots.len() <= id < g.slots.len() + items.len() ==> is_fresh(
                    #[trigger] p.graph.node(id),
                )
            &&& p.commands.len() == 2 * items.len()
            &&& forall|k: int|
                0 <= k < items.len() ==> (#[trigger] p.commands[2 * k]) is PlaceBlock
            &&& forall|k: int|
                0 <= k < items.len() ==> (#[trigger] p.commands[2 * k + 1]) == (
                Command::Connect { from: items[k].footage, to: p.ids[k], port: Port::Texture })
        }),
    decreases items.len(),
{
    let p = crate::clipboard::with_items(g, seq, tb, items, anchor, playhead_ts);
    if items.len() == 0 {
        assert(p.ids =~= crate::links::next_ids(g, 0));
    } else {
        let init = items.drop_last();
        let item = items[items.len() - 1];
        let q = crate::clipboard::with_items(g, seq, tb, init, anchor, playhead_ts);
        let (start, out) = crate::clipboard::pasted_span(item, anchor, playhead_ts).unwrap();
        assert(p == crate::clipboard::with_item(q, seq, tb, item, start, out));
        assert(q.error is None);
        lemma_pasted(g, seq, tb, init, anchor, playhead_ts);
        let length = crate::placement::span_length(start, out, tb).unwrap();
        let clip = crate::clipboard::pasted_clip(
            q.graph,
            item,
            crate::timebase::time_of(item.media_in_ts, tb),
            length,
        );
        assert(p.graph == q.graph.appended(clip));
        assert(p.ids =~= crate::links::next_ids(g, items.len()));
        assert forall|id: NodeId|
            g.slots.len() <= id < g.slots.len() + items.len() implies is_fresh(
            #[trigger] p.graph.node(id),
        ) by {
            if id < g.slots.len() + init.len() {
                assert(p.graph.node(id) == q.graph.node(id));
                assert(is_fresh(q.graph.node(id)));
            } else {
                assert(p.graph.node(id) == Some(clip));
            }
        }
        assert forall|k: int| 0 <= k < items.len() implies (
        #[trigger] p.commands[2 * k]) is PlaceBlock by {
            if k < init.len() {
                assert(p.commands[2 * k] == q.commands[2 * k]);
            }
        }
        assert forall|k: int| 0 <= k < items.len() implies (#[trigger] p.commands[2 * k + 1]) == (
        Command::Connect { from: items[k].footage, to: p.ids[k], port: Port::Texture }) by {
            if k < init.len() {
                assert(p.commands[2 * k + 1] == q.commands[2 * k + 1]);
                assert(init[k] == items[k]);
                assert(p.ids[k] == q.ids[k]);
            }
        }
    }
}

/// Whether `pair` is of the pasted clips at two places before `n`, the earlier
/// one first, that are to be linked.
pub open spec fn chosen(
    items: Seq<CopyModel>,
    ids: Seq<NodeId>,
    n: int,
    pair: (NodeId, NodeId),
) -> bool {
    exists|i: int, j: int|
        0 <= i < j < n && #[trigger] crate::clipboard::links_on(items, i, j) && pair == (
            ids[i],
            ids[j],
        )
}

proof fn lemma_pairs_before(items: Seq<CopyModel>, ids: Seq<NodeId>, j: int, n: nat)
    requires
        ids.no_duplicates(),
        n <= j < ids.len(),
    ensures
        ({
            let pairs = crate::clipboard::pairs_before(items, ids, j, n);
            &&& forall|k: int|
                0 <= k < pairs.len() ==> exists|i: int|
                    0 <= i < n && crate::clipboard::links_on(items, i, j) && #[trigger] pairs[k] == (
                        #[trigger] ids[i],
                        ids[j],
                    )
            &&& forall|i: int|
                0 <= i < n && #[trigger] crate::clipboard::links_on(items, i, j)
                    ==> pairs.contains((ids[i], ids[j]))
            &&& pairs.no_duplicates()
        }),
    decreases n,
{
    let pairs = crate::clipboard::pairs_before(items, ids, j, n);
    if n > 0 {
        let m = (n - 1) as nat;
        lemma_pairs_before(items, ids, j, m);
        let done = crate::clipboard::pairs_before(items, ids, j, m);
        assert forall|k: int| 0 <= k < pairs.len() implies exists|i: int|
            0 <= i < n && crate::clipboard::links_on(items, i, j) && #[trigger] pairs[k] == (
                #[trigger] ids[i],
                ids[j],
            ) by {
            if k < done.len() {
                assert(pairs[k] == done[k]);
                let i = choose|i: int|
                    0 <= i < m && crate::clipboard::links_on(items, i, j) && done[k] == (
                        #[trigger] ids[i],
                        ids[j],
                    );
                assert(pairs[k] == (ids[i], ids[j]));
            } else {
                assert(pairs[k] == (ids[m as int], ids[j]));
            }
        }
        assert forall|i: int| 0 <= i < n && #[trigger] crate::clipboard::links_on(
            items,
            i,
            j,
        ) implies pairs.contains((ids[i], ids[j])) by {
            if i < m {
                let k = choose|k: int| 0 <= k < done.len() && done[k] == (ids[i], ids[j]);
                assert(pairs[k] == (ids[i], ids[j]));
            } else {
                assert(pairs[done.len() as int] == (ids[i], ids[j]));
            }
        }
        if pairs.len() > done.len() {
            assert forall|k: int| 0 <= k < done.len() implies done[k] != (ids[m as int], ids[j]) by {
                let i = choose|i: int|
                    0 <= i < m && crate::clipboard::links_on(items, i, j) && done[k] == (
                        #[trigger] ids[i],
                        ids[j],
                    );
                assert(ids[i] != ids[m as int]);
            }
        }
    }
}

proof fn lemma_paste_pairs(items: Seq<CopyModel>, ids: Seq<NodeId>, n: nat)
    requires
        ids.no_duplicates(),
        n <= ids.len(),
    ensures
        ({
            let pairs = crate::clipboard::paste_pairs(items, ids, n);
            &&& forall|k: int|
                0 <= k < pairs.len() ==> chosen(items, ids, n as int, #[trigger] pairs[k])
            &&& forall|pair: (NodeId, NodeId)|
                chosen(items, ids, n as int, pair) ==> #[trigger] pairs.contains(pair)
            &&& pairs.no_duplicates()
        }),
    decreases n,
{
    let pairs = crate::clipboard::paste_pairs(items, ids, n);
    if n > 0 {
        let j = n - 1;
        lemma_paste_pairs(items, ids, j as nat);
        lemma_pairs_before(items, ids, j, j as nat);
        let done = crate::clipboard::paste_pairs(items, ids, j as nat);
        let more = crate::clipboard::pairs_before(items, ids, j, j as nat);
        assert(pairs == done + more);
        assert forall|k: int| 0 <= k < pairs.len() implies chosen(
            items,
            ids,
            n as int,
            #[trigger] pairs[k],
        ) by {
            if k < done.len() {
                assert(pairs[k] == done[k]);
                let (i, l) = choose|i: int, l: int|
                    0 <= i < l < j && #[trigger] crate::clipboard::links_on(items, i, l) && done[k]
                        == (ids[i], ids[l]);
                assert(crate::clipboard::links_on(items, i, l));
            } else {
                assert(pairs[k] == more[k - done.len()]);
                let i = choose|i: int|
                    0 <= i < j && crate::clipboard::links_on(items, i, j) && more[k - done.len()]
                        == (#[trigger] ids[i], ids[j]);
                assert(crate::clipboard::links_on(items, i, j));
            }
        }
        assert forall|pair: (NodeId, NodeId)|
            chosen(items, ids, n as int, pair) implies #[trigger] pairs.contains(pair) by {
            let (i, l) = choose|i: int, l: int|
                0 <= i < l < n && #[trigger] crate::clipboard::links_on(items, i, l) && pair == (
                    ids[i],
                    ids[l],
                );
            if l < j {
                assert(chosen(items, ids, j, pair));
                assert(done.contains(pair));
                let k = choose|k: int| 0 <= k < done.len() && done[k] == pair;
                assert(pairs[k] == pair);
            } else {
                assert(more.contains(pair));
                let k = choose|k: int| 0 <= k < more.len() && more[k] == pair;
                assert(pairs[done.len() + k] == pair);
            }
        }
        assert forall|k: int, m: int| 0 <= k < m < pairs.len() implies pairs[k] != pairs[m] by {
            if m < done.len() {
                assert(pairs[k] == done[k] && pairs[m] == done[m]);
            } else if k >= done.len() {
                assert(pairs[k] == more[k - done.len()] && pairs[m] == more[m - done.len()]);
            } else {
                assert(pairs[k] == done[k] && pairs[m] == more[m - done.len()]);
                assert(chosen(items, ids, j, done[k]));
                let (i, l) = choose|i: int, l: int|
                    0 <= i < l < j && #[trigger] crate::clipboard::links_on(items, i, l) && done[k]
                        == (ids[i], ids[l]);
                assert(ids[l] != ids[j]);
            }
        }
    }
}

/// Whether two pasted clips end up linked: one of them is the first, or
/// their originals were linked.
pub open spec fn pasted_linked(items: Seq<CopyModel>, i: int, j: int) -> bool {
    i == 0 || j == 0 || crate::clipboard::were_linked(items[i], items[j])
}

/// A paste can be taken back. With it done the first pasted clip is linked
/// with every other, clips whose originals were linked are linked, and no
/// other two are.
pub proof fn lemma_paste_reversible(
    g: crate::graph::GraphModel,
    seq: NodeId,
    tb: (i64, i64),
    items: Seq<CopyModel>,
    anchor: i64,
    playhead_ts: i64,
)
    requires
        g.slots.len() + items.len() < u64::MAX,
        crate::clipboard::with_items(g, seq, tb, items, anchor, playhead_ts).error is None,
    ensures
        ({
            let p = crate::clipboard::with_items(g, seq, tb, items, anchor, playhead_ts);
            let commands = p.commands + crate::clipboard::paste_links(items, p.ids);
            let now = p.graph.redone_all(commands);
            &&& crate::reversal::reversible_all(p.graph, commands)
            &&& now.undone_all(commands) == p.graph
            &&& p.ids.len() == items.len()
            &&& forall|i: int, j: int|
                0 <= i < p.ids.len() && 0 <= j < p.ids.len() && i != j ==> now.links(
                    #[trigger] p.ids[i],
                ).contains(#[trigger] p.ids[j]) == pasted_linked(items, i, j)
        }),
{
    let p = crate::clipboard::with_items(g, seq, tb, items, anchor, playhead_ts);
    let links = crate::clipboard::paste_links(items, p.ids);
    lemma_pasted(g, seq, tb, items, anchor, playhead_ts);
    assert forall|i: int| 0 <= i < p.commands.len() implies fed_node(#[trigger] p.commands[i])
        == if i % 2 == 0 {
        None
    } else {
        Some(p.ids[i / 2])
    } by {
        if i % 2 == 0 {
            assert(p.commands[2 * (i / 2)] is PlaceBlock);
        } else {
            assert(p.commands[2 * (i / 2) + 1] is Connect);
        }
    }
    assert(places_fresh(p.graph, p.commands)) by {
        assert forall|i: int| 0 <= i < p.commands.len() implies places(
            #[trigger] p.commands[i],
        ) by {
            if i % 2 == 0 {
                assert(p.commands[2 * (i / 2)] is PlaceBlock);
            } else {
                assert(p.commands[2 * (i / 2) + 1] is Connect);
            }
        }
        assert forall|i: int| 0 <= i < p.commands.len() implies (fed_node(
            #[trigger] p.commands[i],
        ) matches Some(to) ==> p.graph.connected_output(to, TEXTURE_INPUT@) is None) by {
            if i % 2 != 0 {
                assert(is_fresh(p.graph.node(p.ids[i / 2])));
            }
        }
    }
    lemma_placing(p.graph, p.commands);
    let wired = p.graph.redone_all(p.commands);
    let pairs = crate::clipboard::paste_pairs(items, p.ids, p.ids.len());
    assert(p.ids.no_duplicates());
    lemma_paste_pairs(items, p.ids, p.ids.len());
    assert forall|i: int| 0 <= i < p.ids.len() implies is_fresh(
        p.graph.node(#[trigger] p.ids[i]),
    ) && wired.links(p.ids[i]).len() == 0 && wired.node(p.ids[i]) is Some by {
        assert(is_fresh(p.graph.node(p.ids[i])));
        assert(wired.links(p.ids[i]) == p.graph.links(p.ids[i]));
    }
    assert forall|k: int|
        0 <= k < pairs.len() implies !wired.links((#[trigger] pairs[k]).0).contains(pairs[k].1)
        && !wired.links(pairs[k].1).contains(pairs[k].0) by {
        assert(chosen(items, p.ids, p.ids.len() as int, pairs[k]));
        let (i, j) = choose|i: int, j: int|
            0 <= i < j < p.ids.len() && #[trigger] crate::clipboard::links_on(items, i, j)
                && pairs[k] == (p.ids[i], p.ids[j]);
        assert(wired.links(p.ids[i]).len() == 0 && wired.links(p.ids[j]).len() == 0);
    }
    assert forall|k: int, m: int| 0 <= k < m < pairs.len() implies #[trigger] pairs[k]
        != #[trigger] pairs[m] && pairs[k] != (pairs[m].1, pairs[m].0) by {
        assert(chosen(items, p.ids, p.ids.len() as int, pairs[k]));
        assert(chosen(items, p.ids, p.ids.len() as int, pairs[m]));
        lemma_not_swapped(items, p.ids, pairs[k], pairs[m]);
    }
    crate::link_laws::lemma_pair_links(wired, links, pairs);
    crate::transition_laws::lemma_redone_concat(p.graph, p.commands, links);
    crate::reversal::lemma_undo_redo_all(p.graph, p.commands + links);
    assert forall|i: int, j: int|
        0 <= i < p.ids.len() && 0 <= j < p.ids.len() && i != j implies p.graph.redone_all(
        p.commands + links,
    ).links(#[trigger] p.ids[i]).contains(#[trigger] p.ids[j]) == pasted_linked(items, i, j) by {
        crate::link_laws::lemma_linked(wired, pairs, p.ids[i], p.ids[j]);
        assert(wired.links(p.ids[i]).len() == 0);
        lemma_chosen(items, p.ids, i, j);
        lemma_chosen(items, p.ids, j, i);
        assert(pairs.contains((p.ids[i], p.ids[j])) == chosen(
            items,
            p.ids,
            p.ids.len() as int,
            (p.ids[i], p.ids[j]),
        ));
        assert(pairs.contains((p.ids[j], p.ids[i])) == chosen(
            items,
            p.ids,
            p.ids.len() as int,
            (p.ids[j], p.ids[i]),
        ));
    }
}

/// Undoing a paste leaves every link alone that is not between two of its own
/// clips, also one that was made later.
pub proof fn lemma_paste_undo(
    g: crate::graph::GraphModel,
    seq: NodeId,
    tb: (i64, i64),
    items: Seq<CopyModel>,
    anchor: i64,
    playhead_ts: i64,
    later: crate::graph::GraphModel,
    x: NodeId,
    y: NodeId,
)
    requires
        g.slots.len() + items.len() < u64::MAX,
        crate::clipboard::with_items(g, seq, tb, items, anchor, playhead_ts).error is None,
    ensures
        ({
            let p = crate::clipboard::with_items(g, seq, tb, items, anchor, playhead_ts);
            let commands = p.commands + crate::clipboard::paste_links(items, p.ids);
            !(p.ids.contains(x) && p.ids.contains(y)) ==> later.undone_all(commands).links(
                x,
            ).contains(y) == later.links(x).contains(y)
        }),
{
    let p = crate::clipboard::with_items(g, seq, tb, items, anchor, playhead_ts);
    let links = crate::clipboard::paste_links(items, p.ids);
    let pairs = crate::clipboard::paste_pairs(items, p.ids, p.ids.len());
    let commands = p.commands + links;
    lemma_pasted(g, seq, tb, items, anchor, playhead_ts);
    assert(p.ids.no_duplicates());
    lemma_paste_pairs(items, p.ids, p.ids.len());
    assert forall|i: int| 0 <= i < p.commands.len() implies places(#[trigger] p.commands[i]) by {
        if i % 2 == 0 {
            assert(p.commands[2 * (i / 2)] is PlaceBlock);
        } else {
            assert(p.commands[2 * (i / 2) + 1] is Connect);
        }
    }
    assert forall|i: int| 0 <= i < commands.len() implies places_or_links(
        #[trigger] commands[i],
    ) && !(commands[i] is AddLink) && (commands[i] matches Command::LinkPair { a, b }
        ==> p.ids.contains(a) && p.ids.contains(b)) by {
        if i < p.commands.len() {
            assert(commands[i] == p.commands[i]);
        } else {
            let k = i - p.commands.len();
            assert(commands[i] == links[k]);
            assert(chosen(items, p.ids, p.ids.len() as int, pairs[k]));
        }
    }
    if links_to(commands, x, y) {
        let i = choose|i: int|
            0 <= i < commands.len() && (#[trigger] commands[i] == (Command::AddLink {
                from: x,
                to: y,
            }) || commands[i] == (Command::LinkPair { a: x, b: y }) || commands[i] == (
            Command::LinkPair { a: y, b: x }));
        assert(p.ids.contains(x) && p.ids.contains(y));
    }
    lemma_undone_links(later, commands, x, y);
}

proof fn lemma_chosen(items: Seq<CopyModel>, ids: Seq<NodeId>, i: int, j: int)
    requires
        ids.no_duplicates(),
        0 <= i < ids.len(),
        0 <= j < ids.len(),
    ensures
        chosen(items, ids, ids.len() as int, (ids[i], ids[j])) == (i < j
            && crate::clipboard::links_on(items, i, j)),
{
    if chosen(items, ids, ids.len() as int, (ids[i], ids[j])) {
        let (k, l) = choose|k: int, l: int|
            0 <= k < l < ids.len() && #[trigger] crate::clipboard::links_on(items, k, l) && (
            ids[i], ids[j]) == (ids[k], ids[l]);
        assert(k == i && l == j);
    }
}

proof fn lemma_not_swapped(
    items: Seq<CopyModel>,
    ids: Seq<NodeId>,
    a: (NodeId, NodeId),
    b: (NodeId, NodeId),
)
    requires
        ids.no_duplicates(),
        chosen(items, ids, ids.len() as int, a),
        chosen(items, ids, ids.len() as int, b),
    ensures
        a != (b.1, b.0),
{
    let (i, j) = choose|i: int, j: int|
        0 <= i < j < ids.len() && #[trigger] crate::clipboard::links_on(items, i, j) && a == (
            ids[i],
            ids[j],
        );
    let (k, l) = choose|k: int, l: int|
        0 <= k < l < ids.len() && #[trigger] crate::clipboard::links_on(items, k, l) && b == (
            ids[k],
            ids[l],
        );
    if a == (b.1, b.0) {
        assert(i == l && j == k);
    }
}

} // verus!
