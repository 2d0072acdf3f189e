//! What linking leaves behind: who is linked to whom.

use crate::commands::Command;
use crate::graph::NodeId;
use vstd::prelude::*;

verus! {

proof fn lemma_linked_to(g: crate::graph::GraphModel, a: NodeId, b: NodeId, x: NodeId, y: NodeId)
    ensures
        g.with_link(a, b).links(x).contains(y) == (g.links(x).contains(y) || (x == a && y == b
            && g.node(a) is Some)),
        g.with_link(a, b).node(x) is Some == g.node(x) is Some,
{
    if let Some(n) = g.node(a) {
        if !n.links.contains(b) {
            let more = n.links.push(b);
            assert(more[n.links.len() as int] == b);
            if x == a {
                if more.contains(y) {
                    let i = choose|i: int| 0 <= i < more.len() && more[i] == y;
                    if i < n.links.len() {
                        assert(n.links[i] == y);
                    }
                }
                if n.links.contains(y) {
                    let i = choose|i: int| 0 <= i < n.links.len() && n.links[i] == y;
                    assert(more[i] == y);
                }
            }
        }
    }
}

pub(crate) proof fn lemma_unlinked_from(
    g: crate::graph::GraphModel,
    a: NodeId,
    b: NodeId,
    x: NodeId,
    y: NodeId,
)
    ensures
        g.without_link(a, b).links(x).contains(y) == (g.links(x).contains(y) && !(x == a && y
            == b)),
        g.without_link(a, b).node(x) is Some == g.node(x) is Some,
{
    if let Some(n) = g.node(a) {
        crate::list::lemma_without_contains(n.links, b, y);
    }
}

/// Whether a pair is listed, in either order.
pub open spec fn paired(pairs: Seq<(NodeId, NodeId)>, x: NodeId, y: NodeId) -> bool {
    pairs.contains((x, y)) || pairs.contains((y, x))
}

proof fn lemma_paired_step(pairs: Seq<(NodeId, NodeId)>, x: NodeId, y: NodeId)
    requires
        pairs.len() > 0,
    ensures
        paired(pairs, x, y) == (paired(pairs.drop_last(), x, y) || pairs.last() == (x, y)
            || pairs.last() == (y, x)),
{
    lemma_contains_step(pairs, (x, y));
    lemma_contains_step(pairs, (y, x));
}

proof fn lemma_contains_step(pairs: Seq<(NodeId, NodeId)>, p: (NodeId, NodeId))
    requires
        pairs.len() > 0,
    ensures
        pairs.contains(p) == (pairs.drop_last().contains(p) || pairs.last() == p),
{
    let init = pairs.drop_last();
    if pairs.contains(p) {
        let i = choose|i: int| 0 <= i < pairs.len() && pairs[i] == p;
        if i < init.len() {
            assert(init[i] == p);
        }
    }
    if init.contains(p) {
        let i = choose|i: int| 0 <= i < init.len() && init[i] == p;
        assert(pairs[i] == p);
    }
    if pairs.last() == p {
        assert(pairs[pairs.len() - 1] == p);
    }
}

/// Linking pairs adds exactly their links, both ways.
pub proof fn lemma_linked(
    g: crate::graph::GraphModel,
    pairs: Seq<(NodeId, NodeId)>,
    x: NodeId,
    y: NodeId,
)
    ensures
        crate::links::linked(g, pairs).links(x).contains(y) == (g.links(x).contains(y) || (g.node(
            x,
        ) is Some && paired(pairs, x, y))),
        crate::links::linked(g, pairs).node(x) is Some == g.node(x) is Some,
    decreases pairs.len(),
{
    if pairs.len() > 0 {
        let (a, b) = pairs.last();
        let done = crate::links::linked(g, pairs.drop_last());
        lemma_linked(g, pairs.drop_last(), x, y);
        lemma_linked(g, pairs.drop_last(), a, b);
        lemma_linked(g, pairs.drop_last(), b, a);
        lemma_linked_to(done, a, b, x, y);
        lemma_linked_to(done, a, b, b, a);
        lemma_linked_to(done.with_link(a, b), b, a, x, y);
        lemma_paired_step(pairs, x, y);
    }
}

/// Unlinking pairs drops exactly their links, both ways.
pub proof fn lemma_unlinked(
    g: crate::graph::GraphModel,
    pairs: Seq<(NodeId, NodeId)>,
    x: NodeId,
    y: NodeId,
)
    ensures
        crate::links::unlinked(g, pairs).links(x).contains(y) == (g.links(x).contains(y) && !paired(
            pairs,
            x,
            y,
        )),
        crate::links::unlinked(g, pairs).node(x) is Some == g.node(x) is Some,
    decreases pairs.len(),
{
    if pairs.len() > 0 {
        let (a, b) = pairs.last();
        let done = crate::links::unlinked(g, pairs.drop_last());
        lemma_unlinked(g, pairs.drop_last(), x, y);
        lemma_unlinked_from(done, a, b, x, y);
        lemma_unlinked_from(done.without_link(a, b), b, a, x, y);
        lemma_paired_step(pairs, x, y);
    }
}

proof fn lemma_pairs_with(blocks: Seq<NodeId>, i: int, n: int, p: (NodeId, NodeId))
    requires
        0 <= i < blocks.len(),
        n <= blocks.len(),
    ensures
        crate::links::pairs_with(blocks, i, n).contains(p) <==> exists|j: int|
            i < j < n && p == (blocks[i], #[trigger] blocks[j]),
    decreases n - i,
{
    let all = crate::links::pairs_with(blocks, i, n);
    if n > i + 1 {
        lemma_pairs_with(blocks, i, n - 1, p);
        assert(all.drop_last() =~= crate::links::pairs_with(blocks, i, n - 1));
        lemma_contains_step(all, p);
        if all.contains(p) && !all.drop_last().contains(p) {
            assert(p == (blocks[i], blocks[n - 1]));
        }
        if exists|j: int| i < j < n && p == (blocks[i], #[trigger] blocks[j]) {
            let j = choose|j: int| i < j < n && p == (blocks[i], #[trigger] blocks[j]);
            if j < n - 1 {
                assert(p == (blocks[i], blocks[j]));
            }
        }
    }
}

proof fn lemma_pairs_upto(blocks: Seq<NodeId>, n: nat, p: (NodeId, NodeId))
    requires
        n <= blocks.len(),
    ensures
        crate::links::pairs_upto(blocks, n).contains(p) <==> exists|i: int, j: int|
            0 <= i < n && i < j < blocks.len() && p == (#[trigger] blocks[i], #[trigger] blocks[j]),
    decreases n,
{
    if n > 0 {
        let head = crate::links::pairs_upto(blocks, (n - 1) as nat);
        let tail = crate::links::pairs_with(blocks, n - 1, blocks.len() as int);
        let all = crate::links::pairs_upto(blocks, n);
        lemma_pairs_upto(blocks, (n - 1) as nat, p);
        lemma_pairs_with(blocks, n - 1, blocks.len() as int, p);
        if all.contains(p) {
            let k = choose|k: int| 0 <= k < all.len() && all[k] == p;
            if k < head.len() {
                assert(head[k] == p);
            } else {
                assert(tail[k - head.len()] == p);
            }
        }
        if head.contains(p) {
            let k = choose|k: int| 0 <= k < head.len() && head[k] == p;
            assert(all[k] == p);
        }
        if tail.contains(p) {
            let k = choose|k: int| 0 <= k < tail.len() && tail[k] == p;
            assert(all[head.len() + k] == p);
        }
        if exists|i: int, j: int|
            0 <= i < n && i < j < blocks.len() && p == (#[trigger] blocks[i], #[trigger] blocks[j]) {
            let (i, j) = choose|i: int, j: int|
                0 <= i < n && i < j < blocks.len() && p == (
                    #[trigger] blocks[i],
                    #[trigger] blocks[j],
                );
            if i < n - 1 {
                assert(p == (blocks[i], blocks[j]));
            } else {
                assert(p == (blocks[n - 1], blocks[j]));
            }
        }
    }
}

/// Whether two nodes stand at different places of a list.
pub open spec fn both_in(blocks: Seq<NodeId>, x: NodeId, y: NodeId) -> bool {
    exists|i: int, j: int|
        0 <= i < blocks.len() && 0 <= j < blocks.len() && i != j && #[trigger] blocks[i] == x
            && #[trigger] blocks[j] == y
}

/// Two nodes are a pair of a list when they stand at different places of it.
pub proof fn lemma_all_pairs(blocks: Seq<NodeId>, x: NodeId, y: NodeId)
    ensures
        paired(crate::links::all_pairs(blocks), x, y) == both_in(blocks, x, y),
{
    lemma_pairs_upto(blocks, blocks.len(), (x, y));
    lemma_pairs_upto(blocks, blocks.len(), (y, x));
    if both_in(blocks, x, y) {
        let (i, j) = choose|i: int, j: int|
            0 <= i < blocks.len() && 0 <= j < blocks.len() && i != j && #[trigger] blocks[i] == x
                && #[trigger] blocks[j] == y;
        if i < j {
            assert((x, y) == (blocks[i], blocks[j]));
        } else {
            assert((y, x) == (blocks[j], blocks[i]));
        }
    }
}

proof fn lemma_linked_among(
    g: crate::graph::GraphModel,
    pairs: Seq<(NodeId, NodeId)>,
    p: (NodeId, NodeId),
)
    ensures
        crate::links::linked_among(g, pairs).contains(p) == (pairs.contains(p) && g.links(
            p.0,
        ).contains(p.1)),
    decreases pairs.len(),
{
    if pairs.len() > 0 {
        let head = crate::links::linked_among(g, pairs.drop_last());
        let all = crate::links::linked_among(g, pairs);
        lemma_linked_among(g, pairs.drop_last(), p);
        lemma_contains_step(pairs, p);
        if g.links(pairs.last().0).contains(pairs.last().1) {
            assert(all.drop_last() =~= head);
            lemma_contains_step(all, p);
        }
    }
}

/// Who is linked after the links among a set were set to `target`: inside the
/// set exactly the target's pairs, outside it whoever was before.
pub proof fn lemma_relinked(
    g: crate::graph::GraphModel,
    blocks: Seq<NodeId>,
    target: Seq<(NodeId, NodeId)>,
    x: NodeId,
    y: NodeId,
)
    ensures
        crate::links::relinked(g, blocks, target).links(x).contains(y) == ((g.links(x).contains(y)
            && !both_in(blocks, x, y)) || (g.node(x) is Some && paired(target, x, y))),
        crate::links::relinked(g, blocks, target).node(x) is Some == g.node(x) is Some,
{
    let pairs = crate::links::all_pairs(blocks);
    let bare = crate::links::unlinked(g, pairs);
    lemma_all_pairs(blocks, x, y);
    lemma_unlinked(g, pairs, x, y);
    lemma_linked(bare, target, x, y);
}

/// Linking a set links every two of it, both ways; unlinking it leaves no two
/// of it linked. Links to nodes outside the set stay.
pub proof fn lemma_set_linked(
    g: crate::graph::GraphModel,
    blocks: Seq<NodeId>,
    link: bool,
    x: NodeId,
    y: NodeId,
)
    ensures
        ({
            let target = if link {
                crate::links::all_pairs(blocks)
            } else {
                Seq::empty()
            };
            let after = crate::links::relinked(g, blocks, target);
            &&& both_in(blocks, x, y) ==> after.links(x).contains(y) == (link && g.node(x) is Some)
            &&& !both_in(blocks, x, y) ==> after.links(x).contains(y) == g.links(x).contains(y)
        }),
{
    let target = if link {
        crate::links::all_pairs(blocks)
    } else {
        Seq::empty()
    };
    lemma_relinked(g, blocks, target, x, y);
    lemma_all_pairs(blocks, x, y);
}

/// Taking the linking of a set back restores who was linked to whom, links
/// being mutual among the set.
pub proof fn lemma_link_edit_undo(
    g: crate::graph::GraphModel,
    blocks: Seq<NodeId>,
    target: Seq<(NodeId, NodeId)>,
    x: NodeId,
    y: NodeId,
)
    requires
        target == crate::links::all_pairs(blocks) || target.len() == 0,
        g.links(x).contains(y) == g.links(y).contains(x),
    ensures
        crate::links::relinked(
            crate::links::relinked(g, blocks, target),
            blocks,
            crate::links::linked_among(g, crate::links::all_pairs(blocks)),
        ).links(x).contains(y) == g.links(x).contains(y),
{
    let pairs = crate::links::all_pairs(blocks);
    let before = crate::links::linked_among(g, pairs);
    let after = crate::links::relinked(g, blocks, target);
    lemma_relinked(g, blocks, target, x, y);
    lemma_relinked(after, blocks, before, x, y);
    lemma_all_pairs(blocks, x, y);
    lemma_linked_among(g, pairs, (x, y));
    lemma_linked_among(g, pairs, (y, x));
    assert(target.len() == 0 ==> !paired(target, x, y));
}

/// Whether the links among `blocks` go both ways.
pub open spec fn mutual_among(g: crate::graph::GraphModel, blocks: Seq<NodeId>) -> bool {
    forall|x: NodeId, y: NodeId|
        both_in(blocks, x, y) ==> #[trigger] g.links(x).contains(y) == g.links(y).contains(x)
}

/// Linking or unlinking distinct nodes, carried out, taken back and carried
/// out again: once done, every two of them are linked as asked, and links
/// with a node outside the set are what they were. Taken back, every link is
/// what it was, where links among the set go both ways. Done again, they are
/// as after the first time.
pub proof fn lemma_clips_linked_cycle(
    g: crate::graph::GraphModel,
    blocks: Seq<NodeId>,
    link: bool,
)
    requires
        blocks.no_duplicates(),
        forall|i: int| 0 <= i < blocks.len() ==> g.node(#[trigger] blocks[i]) is Some,
        mutual_among(g, blocks),
    ensures
        ({
            let pairs = crate::links::all_pairs(blocks);
            let target = if link {
                pairs
            } else {
                Seq::empty()
            };
            let done = crate::links::relinked(g, blocks, target);
            let undone = crate::links::relinked(
                done,
                blocks,
                crate::links::linked_among(g, pairs),
            );
            let again = crate::links::relinked(undone, blocks, target);
            &&& forall|i: int, j: int|
                0 <= i < blocks.len() && 0 <= j < blocks.len() && i != j ==> done.links(
                    #[trigger] blocks[i],
                ).contains(#[trigger] blocks[j]) == link
            &&& forall|x: NodeId, y: NodeId|
                !(blocks.contains(x) && blocks.contains(y)) ==> #[trigger] done.links(x).contains(y)
                    == g.links(x).contains(y)
            &&& forall|x: NodeId, y: NodeId| #[trigger]
                undone.links(x).contains(y) == g.links(x).contains(y)
            &&& forall|x: NodeId, y: NodeId| #[trigger]
                again.links(x).contains(y) == done.links(x).contains(y)
        }),
{
    let pairs = crate::links::all_pairs(blocks);
    let target = if link {
        pairs
    } else {
        Seq::empty()
    };
    let before = crate::links::linked_among(g, pairs);
    let done = crate::links::relinked(g, blocks, target);
    let undone = crate::links::relinked(done, blocks, before);
    let again = crate::links::relinked(undone, blocks, target);
    assert forall|i: int, j: int|
        0 <= i < blocks.len() && 0 <= j < blocks.len() && i != j implies done.links(
        #[trigger] blocks[i],
    ).contains(#[trigger] blocks[j]) == link by {
        lemma_set_linked(g, blocks, link, blocks[i], blocks[j]);
        assert(both_in(blocks, blocks[i], blocks[j]));
    }
    assert forall|x: NodeId, y: NodeId|
        !(blocks.contains(x) && blocks.contains(y)) implies #[trigger] done.links(x).contains(y)
        == g.links(x).contains(y) by {
        lemma_set_linked(g, blocks, link, x, y);
        if both_in(blocks, x, y) {
            let (i, j) = choose|i: int, j: int|
                0 <= i < blocks.len() && 0 <= j < blocks.len() && i != j && #[trigger] blocks[i]
                    == x && #[trigger] blocks[j] == y;
            assert(blocks.contains(blocks[i]) && blocks.contains(blocks[j]));
        }
    }
    assert forall|x: NodeId, y: NodeId| #[trigger] undone.links(x).contains(y) == g.links(
        x,
    ).contains(y) by {
        lemma_relinked(g, blocks, target, x, y);
        lemma_relinked(done, blocks, before, x, y);
        lemma_all_pairs(blocks, x, y);
        lemma_all_pairs(blocks, y, x);
        lemma_linked_among(g, pairs, (x, y));
        lemma_linked_among(g, pairs, (y, x));
        assert(target.len() == 0 ==> !paired(target, x, y));
        if both_in(blocks, x, y) {
            assert(g.links(x).contains(y) == g.links(y).contains(x));
        }
    }
    assert forall|x: NodeId, y: NodeId| #[trigger] again.links(x).contains(y) == done.links(
        x,
    ).contains(y) by {
        assert(undone.links(x).contains(y) == g.links(x).contains(y));
        lemma_relinked(g, blocks, target, x, y);
        lemma_relinked(done, blocks, before, x, y);
        lemma_relinked(undone, blocks, target, x, y);
    }
}

/// Whether every command adds a one-way link.
pub open spec fn only_links(commands: Seq<Command>) -> bool {
    forall|i: int| 0 <= i < commands.len() ==> (#[trigger] commands[i]) is AddLink
}

/// One-way links add exactly themselves.
pub proof fn lemma_add_links(
    g: crate::graph::GraphModel,
    commands: Seq<Command>,
    x: NodeId,
    y: NodeId,
)
    requires
        only_links(commands),
    ensures
        g.redone_all(commands).links(x).contains(y) == (g.links(x).contains(y) || (g.node(
            x,
        ) is Some && commands.contains(Command::AddLink { from: x, to: y }))),
        g.redone_all(commands).node(x) is Some == g.node(x) is Some,
    decreases commands.len(),
{
    if commands.len() > 0 {
        let init = commands.drop_last();
        let wanted = Command::AddLink { from: x, to: y };
        assert(only_links(init)) by {
            assert forall|i: int| 0 <= i < init.len() implies (#[trigger] init[i]) is AddLink by {
                assert(init[i] == commands[i]);
            }
        }
        lemma_add_links(g, init, x, y);
        let last = commands[commands.len() - 1];
        assert(last is AddLink);
        match last {
            Command::AddLink { from, to } => {
                lemma_add_links(g, init, from, to);
                lemma_linked_to(g.redone_all(init), from, to, x, y);
            },
            _ => {},
        }
        if commands.contains(wanted) {
            let i = choose|i: int| 0 <= i < commands.len() && commands[i] == wanted;
            if i < init.len() {
                assert(init[i] == wanted);
            }
        }
        if init.contains(wanted) {
            let i = choose|i: int| 0 <= i < init.len() && init[i] == wanted;
            assert(commands[i] == wanted);
        }
    }
}

proof fn lemma_links_from(clips: Seq<NodeId>, i: int, n: nat)
    requires
        0 <= i < clips.len(),
        n <= clips.len(),
    ensures
        only_links(crate::links::links_from(clips, i, n)),
        forall|j: int|
            0 <= j < n && j != i ==> crate::links::links_from(clips, i, n).contains(
                Command::AddLink { from: clips[i], to: #[trigger] clips[j] },
            ),
        forall|k: int|
            0 <= k < crate::links::links_from(clips, i, n).len() ==> exists|j: int|
                0 <= j < n && j != i && (#[trigger] crate::links::links_from(clips, i, n)[k])
                    == (Command::AddLink { from: clips[i], to: #[trigger] clips[j] }),
    decreases n,
{
    if n > 0 {
        let head = crate::links::links_from(clips, i, (n - 1) as nat);
        let all = crate::links::links_from(clips, i, n);
        lemma_links_from(clips, i, (n - 1) as nat);
        if n - 1 != i {
            let last = Command::AddLink { from: clips[i], to: clips[n - 1] };
            assert forall|j: int| 0 <= j < n && j != i implies all.contains(
                Command::AddLink { from: clips[i], to: #[trigger] clips[j] },
            ) by {
                if j < n - 1 {
                    let c = Command::AddLink { from: clips[i], to: clips[j] };
                    assert(head.contains(c));
                    let k = choose|k: int| 0 <= k < head.len() && head[k] == c;
                    assert(all[k] == c);
                } else {
                    assert(all[head.len() as int] == last);
                }
            }
            assert forall|k: int| 0 <= k < all.len() implies exists|j: int|
                0 <= j < n && j != i && (#[trigger] all[k]) == (Command::AddLink {
                    from: clips[i],
                    to: #[trigger] clips[j],
                }) by {
                if k < head.len() {
                    assert(all[k] == head[k]);
                    let j = choose|j: int|
                        0 <= j < n - 1 && j != i && head[k] == (Command::AddLink {
                            from: clips[i],
                            to: #[trigger] clips[j],
                        });
                    assert(all[k] == (Command::AddLink { from: clips[i], to: clips[j] }));
                } else {
                    assert(all[k] == (Command::AddLink { from: clips[i], to: clips[n - 1] }));
                }
            }
        }
    }
}

proof fn lemma_group_links(clips: Seq<NodeId>, n: nat)
    requires
        n <= clips.len(),
    ensures
        only_links(crate::links::group_links(clips, n)),
        forall|i: int, j: int|
            0 <= i < n && 0 <= j < clips.len() && i != j ==> crate::links::group_links(
                clips,
                n,
            ).contains(Command::AddLink { from: #[trigger] clips[i], to: #[trigger] clips[j] }),
    decreases n,
{
    if n > 0 {
        let head = crate::links::group_links(clips, (n - 1) as nat);
        let tail = crate::links::links_from(clips, n - 1, clips.len());
        let all = crate::links::group_links(clips, n);
        lemma_group_links(clips, (n - 1) as nat);
        lemma_links_from(clips, n - 1, clips.len());
        assert forall|k: int| 0 <= k < all.len() implies (#[trigger] all[k]) is AddLink by {
            if k < head.len() {
                assert(all[k] == head[k]);
            } else {
                assert(all[k] == tail[k - head.len()]);
            }
        }
        assert forall|i: int, j: int| 0 <= i < n && 0 <= j < clips.len() && i != j implies all.contains(
            Command::AddLink { from: #[trigger] clips[i], to: #[trigger] clips[j] },
        ) by {
            let c = Command::AddLink { from: clips[i], to: clips[j] };
            if i < n - 1 {
                assert(head.contains(c));
                let k = choose|k: int| 0 <= k < head.len() && head[k] == c;
                assert(all[k] == c);
            } else {
                assert(tail.contains(c));
                let k = choose|k: int| 0 <= k < tail.len() && tail[k] == c;
                assert(all[head.len() + k] == c);
            }
        }
    }
}

/// The links of a group leave every clip of it linked to every other.
pub proof fn lemma_group_is_linked(g: crate::graph::GraphModel, clips: Seq<NodeId>, i: int, j: int)
    requires
        0 <= i < clips.len(),
        0 <= j < clips.len(),
        i != j,
        g.node(clips[i]) is Some,
    ensures
        g.redone_all(crate::links::group_links(clips, clips.len())).links(clips[i]).contains(
            clips[j],
        ),
{
    lemma_group_links(clips, clips.len());
    lemma_add_links(g, crate::links::group_links(clips, clips.len()), clips[i], clips[j]);
}

proof fn lemma_links_from_distinct(clips: Seq<NodeId>, i: int, n: nat)
    requires
        clips.no_duplicates(),
        0 <= i < clips.len(),
        n <= clips.len(),
    ensures
        crate::links::links_from(clips, i, n).no_duplicates(),
    decreases n,
{
    if n > 0 {
        let head = crate::links::links_from(clips, i, (n - 1) as nat);
        lemma_links_from_distinct(clips, i, (n - 1) as nat);
        lemma_links_from(clips, i, (n - 1) as nat);
        if n - 1 != i {
            let all = crate::links::links_from(clips, i, n);
            assert forall|a: int, b: int| 0 <= a < b < all.len() implies all[a] != all[b] by {
                assert(all[a] == head[a]);
                if b < head.len() {
                    assert(all[b] == head[b]);
                } else {
                    let j = choose|j: int|
                        0 <= j < n - 1 && j != i && head[a] == (Command::AddLink {
                            from: clips[i],
                            to: #[trigger] clips[j],
                        });
                    assert(clips[j] != clips[n - 1]);
                }
            }
        }
    }
}

proof fn lemma_group_links_distinct(clips: Seq<NodeId>, n: nat)
    requires
        clips.no_duplicates(),
        n <= clips.len(),
    ensures
        crate::links::group_links(clips, n).no_duplicates(),
        forall|k: int|
            0 <= k < crate::links::group_links(clips, n).len() ==> exists|a: int, b: int|
                0 <= a < n && 0 <= b < clips.len() && a != b
                    && #[trigger] crate::links::group_links(clips, n)[k] == (Command::AddLink {
                    from: #[trigger] clips[a],
                    to: #[trigger] clips[b],
                }),
    decreases n,
{
    if n > 0 {
        let head = crate::links::group_links(clips, (n - 1) as nat);
        let tail = crate::links::links_from(clips, n - 1, clips.len());
        let all = crate::links::group_links(clips, n);
        lemma_group_links_distinct(clips, (n - 1) as nat);
        lemma_links_from_distinct(clips, n - 1, clips.len());
        lemma_links_from(clips, n - 1, clips.len());
        assert forall|k: int| 0 <= k < all.len() implies exists|a: int, b: int|
            0 <= a < n && 0 <= b < clips.len() && a != b && #[trigger] all[k] == (
            Command::AddLink { from: #[trigger] clips[a], to: #[trigger] clips[b] }) by {
            if k < head.len() {
                assert(all[k] == head[k]);
                let (a, b) = choose|a: int, b: int|
                    0 <= a < n - 1 && 0 <= b < clips.len() && a != b && head[k] == (
                    Command::AddLink { from: #[trigger] clips[a], to: #[trigger] clips[b] });
                assert(all[k] == (Command::AddLink { from: clips[a], to: clips[b] }));
            } else {
                let t = k - head.len();
                assert(all[k] == tail[t]);
                let b = choose|b: int|
                    0 <= b < clips.len() && b != n - 1 && tail[t] == (Command::AddLink {
                        from: clips[n - 1],
                        to: #[trigger] clips[b],
                    });
                assert(all[k] == (Command::AddLink { from: clips[n - 1], to: clips[b] }));
            }
        }
        assert forall|x: int, y: int| 0 <= x < y < all.len() implies all[x] != all[y] by {
            if y < head.len() {
                assert(all[x] == head[x] && all[y] == head[y]);
            } else if x >= head.len() {
                assert(all[x] == tail[x - head.len()] && all[y] == tail[y - head.len()]);
            } else {
                assert(all[x] == head[x] && all[y] == tail[y - head.len()]);
                let (a, b) = choose|a: int, b: int|
                    0 <= a < n - 1 && 0 <= b < clips.len() && a != b && head[x] == (
                    Command::AddLink { from: #[trigger] clips[a], to: #[trigger] clips[b] });
                assert(clips[a] != clips[n - 1]);
            }
        }
    }
}

proof fn lemma_distinct_links_reversible(g: crate::graph::GraphModel, commands: Seq<Command>)
    requires
        only_links(commands),
        commands.no_duplicates(),
        forall|k: int|
            0 <= k < commands.len() ==> (#[trigger] commands[k] matches Command::AddLink {
                from,
                to,
            } ==> !g.links(from).contains(to)),
    ensures
        crate::reversal::reversible_all(g, commands),
    decreases commands.len(),
{
    if commands.len() > 0 {
        let init = commands.drop_last();
        let last = commands[commands.len() - 1];
        assert forall|k: int| 0 <= k < init.len() implies init[k] == commands[k] by {}
        assert(only_links(init)) by {
            assert forall|k: int| 0 <= k < init.len() implies (#[trigger] init[k]) is AddLink by {
                assert(commands[k] is AddLink);
            }
        }
        lemma_distinct_links_reversible(g, init);
        assert(last is AddLink);
        if let Command::AddLink { from, to } = last {
            lemma_add_links(g, init, from, to);
            if init.contains(last) {
                let k = choose|k: int| 0 <= k < init.len() && init[k] == last;
                assert(commands[k] == commands[commands.len() - 1]);
            }
            assert(!g.links(from).contains(to));
        }
    }
}

/// The commands that link a group: from every clip to every other.
pub(crate) proof fn lemma_group_commands(clips: Seq<NodeId>, x: NodeId, y: NodeId)
    requires
        clips.no_duplicates(),
    ensures
        only_links(crate::links::group_links(clips, clips.len())),
        crate::links::group_links(clips, clips.len()).contains(
            Command::AddLink { from: x, to: y },
        ) == (clips.contains(x) && clips.contains(y) && x != y),
{
    let commands = crate::links::group_links(clips, clips.len());
    let link = Command::AddLink { from: x, to: y };
    lemma_group_links(clips, clips.len());
    lemma_group_links_distinct(clips, clips.len());
    if commands.contains(link) {
        let k = choose|k: int| 0 <= k < commands.len() && commands[k] == link;
        let (a, b) = choose|a: int, b: int|
            0 <= a < clips.len() && 0 <= b < clips.len() && a != b && commands[k] == (
            Command::AddLink { from: #[trigger] clips[a], to: #[trigger] clips[b] });
        assert(clips[a] == x && clips[b] == y);
    }
    if clips.contains(x) && clips.contains(y) && x != y {
        let i = choose|i: int| 0 <= i < clips.len() && clips[i] == x;
        let j = choose|j: int| 0 <= j < clips.len() && clips[j] == y;
        assert(commands.contains(Command::AddLink { from: clips[i], to: clips[j] }));
    }
}

/// Linking a group of which no two are linked can be taken back.
pub proof fn lemma_group_links_reversible(g: crate::graph::GraphModel, clips: Seq<NodeId>)
    requires
        clips.no_duplicates(),
        forall|i: int, j: int|
            0 <= i < clips.len() && 0 <= j < clips.len() ==> !g.links(
                #[trigger] clips[i],
            ).contains(#[trigger] clips[j]),
    ensures
        crate::reversal::reversible_all(g, crate::links::group_links(clips, clips.len())),
{
    let commands = crate::links::group_links(clips, clips.len());
    lemma_group_links(clips, clips.len());
    lemma_group_links_distinct(clips, clips.len());
    assert forall|k: int| 0 <= k < commands.len() implies (#[trigger] commands[k] matches
        Command::AddLink { from, to } ==> !g.links(from).contains(to)) by {
        let (a, b) = choose|a: int, b: int|
            0 <= a < clips.len() && 0 <= b < clips.len() && a != b && commands[k] == (
            Command::AddLink { from: #[trigger] clips[a], to: #[trigger] clips[b] });
        assert(!g.links(clips[a]).contains(clips[b]));
    }
    lemma_distinct_links_reversible(g, commands);
}

/// Linking pairs of which no two are the same and none is linked can be taken
/// back, and links exactly them.
pub proof fn lemma_pair_links(
    g: crate::graph::GraphModel,
    commands: Seq<Command>,
    pairs: Seq<(NodeId, NodeId)>,
)
    requires
        commands.len() == pairs.len(),
        forall|i: int|
            0 <= i < pairs.len() ==> #[trigger] commands[i] == (Command::LinkPair {
                a: pairs[i].0,
                b: pairs[i].1,
            }),
        forall|i: int|
            0 <= i < pairs.len() ==> !g.links((#[trigger] pairs[i]).0).contains(pairs[i].1)
                && !g.links(pairs[i].1).contains(pairs[i].0),
        forall|i: int, j: int|
            0 <= i < j < pairs.len() ==> #[trigger] pairs[i] != #[trigger] pairs[j] && pairs[i]
                != (pairs[j].1, pairs[j].0),
    ensures
        crate::reversal::reversible_all(g, commands),
        g.redone_all(commands) == crate::links::linked(g, pairs),
    decreases pairs.len(),
{
    if pairs.len() > 0 {
        let init = pairs.drop_last();
        let (a, b) = pairs[pairs.len() - 1];
        assert forall|i: int| 0 <= i < init.len() implies init[i] == pairs[i] by {}
        assert forall|i: int|
            0 <= i < init.len() implies #[trigger] commands.drop_last()[i] == (
        Command::LinkPair { a: init[i].0, b: init[i].1 }) by {
            assert(commands[i] == (Command::LinkPair { a: pairs[i].0, b: pairs[i].1 }));
        }
        lemma_pair_links(g, commands.drop_last(), init);
        lemma_linked(g, init, a, b);
        lemma_linked(g, init, b, a);
        if paired(init, a, b) || paired(init, b, a) {
            let i = choose|i: int|
                0 <= i < init.len() && (#[trigger] init[i] == (a, b) || init[i] == (b, a));
            assert(pairs[i] != pairs[pairs.len() - 1]);
        }
        assert(commands[pairs.len() - 1] == (Command::LinkPair { a, b }));
        assert(!g.links(pairs[pairs.len() - 1].0).contains(pairs[pairs.len() - 1].1));
    }
}

} // verus!
