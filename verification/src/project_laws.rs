//! What the project's own edits promise: creation twice is creation once,
//! and a row that is taken back leaves the project as it was.

use crate::commands::{Command, TrackFlag};
use crate::graph::{NodeId, TrackType};
use vstd::prelude::*;

verus! {

/// A flag of a track.
pub open spec fn flag_of(t: crate::graph::TrackModel, flag: TrackFlag) -> bool {
    match flag {
        TrackFlag::Muted => t.muted,
        TrackFlag::Locked => t.locked,
    }
}

/// A flag can be set of tracks alone. Setting it to what it is makes no row;
/// setting it to the other value makes one, which can be taken back. The
/// flag then reads the value, the other flag and everything else stays, and
/// setting it once more makes no row.
pub proof fn lemma_flag(g: crate::graph::GraphModel, track: NodeId, flag: TrackFlag, value: bool)
    ensures
        crate::project::flag_plan(g, track, flag, value) is Ok <==> g.track(track) is Some,
        crate::project::flag_plan(g, track, flag, value) matches Ok(commands) ==> {
            let was = g.track(track).unwrap();
            let now = g.redone_all(commands);
            let t = now.track(track).unwrap();
            &&& commands.len() == if flag_of(was, flag) == value {
                0nat
            } else {
                1nat
            }
            &&& crate::reversal::reversible_all(g, commands)
            &&& now.undone_all(commands) == g
            &&& now.track(track) is Some
            &&& flag_of(t, flag) == value
            &&& forall|other: TrackFlag|
                other != flag ==> #[trigger] flag_of(t, other) == flag_of(was, other)
            &&& t.blocks == was.blocks
            &&& forall|id: NodeId| id != track ==> #[trigger] now.node(id) == g.node(id)
            &&& crate::project::flag_plan(now, track, flag, value) == Ok::<
                Seq<Command>,
                crate::errors::EditError,
            >(Seq::empty())
        },
{
    reveal_with_fuel(crate::reversal::reversible_all, 2);
    reveal_with_fuel(crate::graph::GraphModel::redone_all, 2);
    if let Ok(commands) = crate::project::flag_plan(g, track, flag, value) {
        if commands.len() > 0 {
            assert(commands.drop_last() =~= Seq::empty());
        }
        crate::reversal::lemma_undo_redo_all(g, commands);
    }
}

proof fn lemma_list_from_kept(
    g: crate::graph::GraphModel,
    h: crate::graph::GraphModel,
    lists: Seq<NodeId>,
    kind: TrackType,
    from: int,
)
    requires
        0 <= from,
        forall|i: int|
            0 <= i < lists.len() ==> g.track_list(#[trigger] lists[i]) == h.track_list(lists[i]),
    ensures
        crate::queries::list_from(g, lists, kind, from) == crate::queries::list_from(
            h,
            lists,
            kind,
            from,
        ),
    decreases lists.len() - from,
{
    if from < lists.len() {
        lemma_list_from_kept(g, h, lists, kind, from + 1);
    }
}

proof fn lemma_list_from_pushed(
    g: crate::graph::GraphModel,
    lists: Seq<NodeId>,
    kind: TrackType,
    from: int,
    last: NodeId,
)
    requires
        0 <= from <= lists.len(),
        crate::queries::list_from(g, lists, kind, from) is None,
        g.track_list(last) is Some,
        g.track_list(last).unwrap().kind == kind,
    ensures
        crate::queries::list_from(g, lists.push(last), kind, from) == Some(last),
    decreases lists.len() - from,
{
    let all = lists.push(last);
    if from < lists.len() {
        assert(all[from] == lists[from]);
        lemma_list_from_pushed(g, lists, kind, from + 1, last);
    } else {
        assert(all[from] == last);
    }
}

/// The list that was created for a kind is found the next time: creating it
/// again changes nothing.
pub proof fn lemma_track_list_once(g: crate::graph::GraphModel, seq: NodeId, kind: TrackType)
    requires
        g.slots.len() < u64::MAX,
        forall|i: int|
            g.sequence(seq) is Some && 0 <= i < g.sequence(seq).unwrap().track_lists.len()
                ==> #[trigger] g.sequence(seq).unwrap().track_lists[i] < g.slots.len(),
    ensures
        g.with_track_list(seq, kind).track_list_of(seq, kind) == g.track_list_after(seq, kind),
        g.with_track_list(seq, kind).with_track_list(seq, kind) == g.with_track_list(seq, kind),
{
    if g.track_list_of(seq, kind) is None && g.sequence(seq) is Some {
        let s = g.sequence(seq).unwrap();
        let id = g.next_id();
        let now = g.with_track_list(seq, kind);
        assert(now.sequence(seq).unwrap().track_lists == s.track_lists.push(id));
        assert(now.track_list(id) is Some);
        assert forall|i: int| 0 <= i < s.track_lists.len() implies g.track_list(
            #[trigger] s.track_lists[i],
        ) == now.track_list(s.track_lists[i]) by {
            let l = s.track_lists[i];
            assert(l < g.slots.len());
        }
        lemma_list_from_kept(g, now, s.track_lists, kind, 0);
        lemma_list_from_pushed(now, s.track_lists, kind, 0, id);
    }
}

/// What mounting a list of nodes leaves: the folder holds what it held and
/// the nodes; no sequence comes or goes.
proof fn lemma_with_mounted(
    g: crate::graph::GraphModel,
    folder: NodeId,
    ids: Seq<NodeId>,
    c: NodeId,
)
    ensures
        ({
            let now = crate::project::with_mounted(g, folder, ids);
            &&& now.root == g.root
            &&& now.slots.len() == g.slots.len()
            &&& now.sequence(c) is Some == g.sequence(c) is Some
            &&& now.folder(folder) is Some == g.folder(folder) is Some
            &&& g.folder(folder) is Some ==> now.folder(folder).unwrap().contains(c) == (g.folder(
                folder,
            ).unwrap().contains(c) || ids.contains(c))
        }),
    decreases ids.len(),
{
    if ids.len() > 0 {
        let init = ids.drop_last();
        let done = crate::project::with_mounted(g, folder, init);
        let last = ids.last();
        lemma_with_mounted(g, folder, init, c);
        lemma_with_mounted(g, folder, init, last);
        assert(ids.contains(c) == (init.contains(c) || c == last)) by {
            lemma_last_or_before(ids, c);
        }
        if let Some(children) = done.folder(folder) {
            let more = children.push(last);
            lemma_last_or_before(more, c);
            assert(more.drop_last() =~= children);
            let noted = done.with_bin(last, Some(folder));
            assert(noted.folder(folder) == Some(children));
        }
    }
}

proof fn lemma_last_or_before(s: Seq<NodeId>, c: NodeId)
    requires
        s.len() > 0,
    ensures
        s.contains(c) == (s.drop_last().contains(c) || c == s.last()),
{
    let init = s.drop_last();
    if s.contains(c) {
        let i = choose|i: int| 0 <= i < s.len() && s[i] == c;
        if i < init.len() {
            assert(init[i] == c);
        }
    }
    if init.contains(c) {
        let i = choose|i: int| 0 <= i < init.len() && init[i] == c;
        assert(s[i] == c);
    }
    assert(s[s.len() - 1] == s.last());
}

pub(crate) proof fn lemma_orphans(ids: Seq<NodeId>, children: Seq<NodeId>, c: NodeId)
    ensures
        crate::project::orphans(ids, children).contains(c) == (ids.contains(c)
            && !children.contains(c)),
    decreases ids.len(),
{
    if ids.len() > 0 {
        let all = crate::project::orphans(ids, children);
        lemma_orphans(ids.drop_last(), children, c);
        lemma_last_or_before(ids, c);
        if !children.contains(ids.last()) {
            assert(all.drop_last() =~= crate::project::orphans(ids.drop_last(), children));
            lemma_last_or_before(all, c);
        }
    }
}

/// The sequences that are not in the root folder.
pub open spec fn unmounted_sequences(g: crate::graph::GraphModel, root: NodeId) -> Seq<NodeId> {
    crate::project::orphans(
        crate::queries::members(g, crate::queries::NodeClass::Sequence, g.slots.len()),
        match g.folder(root) {
            Some(c) => c,
            None => Seq::empty(),
        },
    )
}

/// After every sequence was mounted in the root folder, none is left out of
/// it: mounting them again has nothing to do.
pub proof fn lemma_sequences_stay_mounted(g: crate::graph::GraphModel, root: NodeId)
    requires
        g.slots.len() <= u64::MAX,
        g.folder(root) is Some,
    ensures
        unmounted_sequences(
            crate::project::with_mounted(g, root, unmounted_sequences(g, root)),
            root,
        ).len() == 0,
{
    let class = crate::queries::NodeClass::Sequence;
    let missing = unmounted_sequences(g, root);
    let now = crate::project::with_mounted(g, root, missing);
    lemma_with_mounted(g, root, missing, root);
    crate::queries::lemma_members(g, class, g.slots.len());
    crate::queries::lemma_members(now, class, now.slots.len());
    let ids = crate::queries::members(g, class, g.slots.len());
    let ids_now = crate::queries::members(now, class, now.slots.len());
    let left = unmounted_sequences(now, root);
    assert forall|c: NodeId| !left.contains(c) by {
        lemma_orphans(ids, g.folder(root).unwrap(), c);
        lemma_orphans(ids_now, now.folder(root).unwrap(), c);
        lemma_with_mounted(g, root, missing, c);
        assert(ids_now.contains(c) == ids.contains(c));
    }
    if left.len() > 0 {
        assert(left.contains(left[0]));
    }
}

/// Whether the folder at `folder` holds only nodes that there are.
pub open spec fn children_exist(g: crate::graph::GraphModel, folder: NodeId) -> bool {
    g.folder(folder) matches Some(c) ==> forall|i: int|
        0 <= i < c.len() ==> #[trigger] c[i] < g.slots.len()
}

/// Mounting a node that was just created can be taken back.
pub proof fn lemma_new_child_reversible(
    g: crate::graph::GraphModel,
    node: crate::graph::NodeModel,
    root: NodeId,
)
    requires
        g.slots.len() < u64::MAX,
        root < g.slots.len(),
        children_exist(g, root),
        node.bin_folder is None,
    ensures
        crate::reversal::reversible_all(
            g.appended(node),
            seq![Command::AddChild { folder: root, child: g.next_id() }],
        ),
{
    reveal_with_fuel(crate::reversal::reversible_all, 2);
    reveal_with_fuel(crate::graph::GraphModel::redone_all, 2);
    let commands = seq![Command::AddChild { folder: root, child: g.next_id() }];
    assert(commands.drop_last() =~= Seq::empty());
    let now = g.appended(node);
    assert(now.folder(root) == g.folder(root));
    if let Some(c) = g.folder(root) {
        if c.contains(g.next_id()) {
            let i = choose|i: int| 0 <= i < c.len() && c[i] == g.next_id();
            assert(c[i] < g.slots.len());
        }
    }
}

/// Whether the node at `id` is the text entry `node`, mounted in `root`.
pub open spec fn shows_entry(
    g: crate::graph::GraphModel,
    root: NodeId,
    id: NodeId,
    node: crate::graph::NodeModel,
) -> bool {
    &&& g.node(id) matches Some(n) && n.type_id == node.type_id && n.behavior == node.behavior
        && n.label == crate::project::TEXT_FOOTAGE_LABEL@ && n.bin_folder == Some(root)
    &&& g.folder(root) matches Some(children) && children.contains(id)
}

/// A text entry that was just created is mounted in the root folder under its
/// label by its redo. The undo leaves neither the node nor its mount, and the
/// next redo brings the same node back under the same identity.
pub proof fn lemma_text_entry(
    g: crate::graph::GraphModel,
    root: NodeId,
    node: crate::graph::NodeModel,
)
    requires
        g.slots.len() < u64::MAX,
        g.folder(root) is Some,
    ensures
        ({
            let id = g.next_id();
            let made = g.appended(
                crate::graph::NodeModel { label: crate::project::TEXT_FOOTAGE_LABEL@, ..node },
            );
            let shown = made.mounted(root, id);
            let detached = shown.unmounted(root, id);
            let gone = detached.taken(id);
            let back = gone.with_node(id, detached.node(id).unwrap()).mounted(root, id);
            &&& shows_entry(shown, root, id, node)
            &&& detached.node(id) is Some
            &&& gone.node(id) is None
            &&& gone.folder(root) matches Some(children) && !children.contains(id)
            &&& shows_entry(back, root, id, node)
        }),
{
    let id = g.next_id();
    let entry = crate::graph::NodeModel { label: crate::project::TEXT_FOOTAGE_LABEL@, ..node };
    let made = g.appended(entry);
    let shown = made.mounted(root, id);
    let detached = shown.unmounted(root, id);
    let gone = detached.taken(id);
    assert(root != id);
    assert(made.folder(root) == g.folder(root));
    lemma_mounted(made, root, id);
    let listed = shown.folder(root).unwrap();
    crate::list::lemma_without_contains(listed, id, id);
    assert(detached.folder(root) == Some(crate::list::without(listed, id)));
    assert(gone.folder(root) == detached.folder(root));
    let held = gone.with_node(id, detached.node(id).unwrap());
    assert(held.folder(root) == gone.folder(root));
    lemma_mounted(held, root, id);
}

proof fn lemma_mounted(g: crate::graph::GraphModel, folder: NodeId, child: NodeId)
    requires
        g.node(child) is Some,
        g.folder(folder) is Some,
        folder != child,
    ensures
        g.mounted(folder, child).folder(folder) matches Some(c) && c.contains(child),
        g.mounted(folder, child).node(child) == Some(
            crate::graph::NodeModel { bin_folder: Some(folder), ..g.node(child).unwrap() },
        ),
{
    let noted = g.with_bin(child, Some(folder));
    assert(noted.folder(folder) == g.folder(folder));
    let c = g.folder(folder).unwrap();
    if !c.contains(child) {
        assert(c.push(child)[c.len() as int] == child);
    }
}

/// A text entry's cycle: undo leaves the project without the node, its mount
/// and links to it, and redo brings back exactly what was shown.
pub proof fn lemma_text_entry_cycle(g: crate::graph::GraphModel, folder: NodeId, id: NodeId)
    requires
        id < g.slots.len() <= u64::MAX,
        g.node(id) is Some,
        g.node(id).unwrap().bin_folder is None,
        folder != id,
        g.folder(folder) matches Some(c) ==> !c.contains(id),
        forall|n: NodeId| !#[trigger] g.links(n).contains(id),
    ensures
        ({
            let shown = g.mounted(folder, id);
            let detached = shown.unmounted(folder, id);
            let gone = detached.taken(id);
            &&& detached == g
            &&& gone.node(id) is None
            &&& gone.with_node(id, detached.node(id).unwrap()).mounted(folder, id) == shown
        }),
{
    crate::reversal::lemma_undo_redo(g, Command::AddChild { folder, child: id });
    let gone = g.taken(id);
    let back = gone.with_node(id, g.node(id).unwrap());
    assert forall|i: int| 0 <= i < g.slots.len() implies #[trigger] back.slots[i] == g.slots[i] by {
        if i != id {
            if let Some(n) = g.slots[i] {
                assert(g.links(i as u64) == n.links);
                crate::list::lemma_without_absent(n.links, id);
            }
        }
    }
    assert(back.slots =~= g.slots);
}

} // verus!
