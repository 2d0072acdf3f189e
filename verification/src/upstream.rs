//! Following a node's inputs to the footage that feeds it.

use crate::graph::{Graph, Node, NodeId};
use crate::list::contains;
use crate::queries::{footage_behavior, FOOTAGE_TYPE_ID};
use crate::text::same_text;
use vstd::prelude::*;

verus! {

/// The nodes that feed `inputs`, in input order.
pub open spec fn sources_of(inputs: Seq<crate::graph::InputModel>) -> Seq<NodeId>
    decreases inputs.len(),
{
    if inputs.len() == 0 {
        Seq::empty()
    } else {
        let rest = sources_of(inputs.drop_last());
        match inputs.last().source {
            Some(id) => rest.push(id),
            None => rest,
        }
    }
}

/// How many of the first `n` slots are not in `visited`.
pub open spec fn unvisited(n: nat, visited: Seq<NodeId>) -> nat
    decreases n,
{
    if n == 0 {
        0
    } else {
        unvisited((n - 1) as nat, visited) + (if visited.contains((n - 1) as u64) {
            0nat
        } else {
            1nat
        })
    }
}

proof fn lemma_unvisited_same(n: nat, visited: Seq<NodeId>, id: NodeId)
    requires
        n <= id,
    ensures
        unvisited(n, visited.push(id)) == unvisited(n, visited),
    decreases n,
{
    if n > 0 {
        let last = (n - 1) as u64;
        lemma_unvisited_same((n - 1) as nat, visited, id);
        let more = visited.push(id);
        assert(more.contains(last) == visited.contains(last)) by {
            if more.contains(last) {
                let i = choose|i: int| 0 <= i < more.len() && more[i] == last;
                assert(visited[i] == last);
            }
            if visited.contains(last) {
                let i = choose|i: int| 0 <= i < visited.len() && visited[i] == last;
                assert(more[i] == last);
            }
        }
    }
}

pub(crate) proof fn lemma_unvisited_drops(n: nat, visited: Seq<NodeId>, id: NodeId)
    requires
        id < n <= u64::MAX,
        !visited.contains(id),
    ensures
        unvisited(n, visited.push(id)) < unvisited(n, visited),
    decreases n,
{
    let last = (n - 1) as u64;
    let more = visited.push(id);
    if id == last {
        lemma_unvisited_same((n - 1) as nat, visited, id);
        assert(more[visited.len() as int] == id);
    } else {
        lemma_unvisited_drops((n - 1) as nat, visited, id);
        if visited.contains(last) {
            let i = choose|i: int| 0 <= i < visited.len() && visited[i] == last;
            assert(more[i] == last);
        }
    }
}

/// The first footage met by a breadth-first walk that starts with `queue`,
/// `visited` being done; `None` when the walk meets a stale id or runs dry.
/// The start itself does not count.
pub open spec fn first_footage(
    g: crate::graph::GraphModel,
    start: NodeId,
    queue: Seq<NodeId>,
    visited: Seq<NodeId>,
) -> Option<NodeId>
    decreases unvisited(g.slots.len(), visited), queue.len(),
    when g.slots.len() <= u64::MAX
    via first_footage_decreases
{
    if queue.len() == 0 {
        None
    } else {
        let cur = queue[0];
        let rest = queue.subrange(1, queue.len() as int);
        if visited.contains(cur) {
            first_footage(g, start, rest, visited)
        } else {
            match g.node(cur) {
                None => None,
                Some(n) => if n.type_id == FOOTAGE_TYPE_ID@ && cur != start {
                    Some(cur)
                } else {
                    first_footage(g, start, rest + sources_of(n.inputs), visited.push(cur))
                },
            }
        }
    }
}

#[via_fn]
proof fn first_footage_decreases(
    g: crate::graph::GraphModel,
    start: NodeId,
    queue: Seq<NodeId>,
    visited: Seq<NodeId>,
) {
    if queue.len() > 0 && !visited.contains(queue[0]) && g.node(queue[0]) is Some {
        lemma_unvisited_drops(g.slots.len(), visited, queue[0]);
    }
}

/// The footage that feeds the node at `id`, the nearest upstream first.
pub open spec fn input_footage(g: crate::graph::GraphModel, id: NodeId) -> Option<NodeId> {
    first_footage(g, id, seq![id], Seq::empty())
}

fn push_sources(node: &Node, queue: &mut Vec<NodeId>)
    ensures
        final(queue)@ == old(queue)@ + sources_of(node@.inputs),
{
    let ghost start = queue@;
    let mut i: usize = 0;
    proof {
        assert(node@.inputs.take(0) =~= Seq::empty());
        assert(start + Seq::<NodeId>::empty() =~= start);
    }
    while i < node.inputs.len()
        invariant
            i <= node.inputs.len(),
            queue@ == start + sources_of(node@.inputs.take(i as int)),
        decreases node.inputs.len() - i,
    {
        proof {
            assert(node@.inputs.take(i + 1).drop_last() == node@.inputs.take(i as int));
            assert(node@.inputs[i as int] == node.inputs@[i as int]@);
        }
        if let Some(id) = node.inputs[i].source {
            queue.push(id);
        }
        i = i + 1;
    }
    assert(node@.inputs.take(i as int) == node@.inputs);
}

/// The first footage feeding `id`, by a breadth-first walk over its inputs.
pub fn find_input_footage(g: &Graph, id: NodeId) -> (r: Option<NodeId>)
    ensures
        r == input_footage(g@, id),
{
    let mut queue: Vec<NodeId> = Vec::new();
    queue.push(id);
    let mut visited: Vec<NodeId> = Vec::new();
    let mut head: usize = 0;
    assert(queue@.subrange(0, 1) =~= seq![id]);
    assert(g.slots.len() == g@.slots.len());
    while head < queue.len()
        invariant
            head <= queue.len(),
            g@.slots.len() <= u64::MAX,
            input_footage(g@, id) == first_footage(
                g@,
                id,
                queue@.subrange(head as int, queue.len() as int),
                visited@,
            ),
        decreases unvisited(g@.slots.len(), visited@), queue.len() - head,
    {
        let cur: NodeId = queue[head];
        let ghost rest = queue@.subrange(head + 1, queue.len() as int);
        let ghost before = queue@.subrange(head as int, queue.len() as int);
        assert(before.subrange(1, before.len() as int) =~= rest);
        assert(before[0] == cur);
        head = head + 1;
        if !contains(&visited, cur) {
            match g.get(cur) {
                None => {
                    return None;
                },
                Some(node) => {
                    if cur != id && same_text(node.type_id.as_str(), FOOTAGE_TYPE_ID) {
                        return Some(cur);
                    }
                    proof {
                        lemma_unvisited_drops(g@.slots.len(), visited@, cur);
                    }
                    visited.push(cur);
                    push_sources(node, &mut queue);
                    assert(queue@.subrange(head as int, queue.len() as int) =~= rest + sources_of(
                        node@.inputs,
                    ));
                },
            }
        }
    }
    None
}

/// The media file feeding a clip.
pub fn clip_media_filename(g: &Graph, clip: NodeId) -> (r: Option<String>)
    ensures
        match (input_footage(g@, clip), r) {
            (Some(f), Some(name)) => g@.footage(f) is Some && name@ == g@.footage(
                f,
            ).unwrap().filename,
            (Some(f), None) => g@.footage(f) is None,
            (None, r) => r is None,
        },
{
    match find_input_footage(g, clip) {
        Some(f) => match footage_behavior(g, f) {
            Some(footage) => Some(footage.filename.clone()),
            None => None,
        },
        None => None,
    }
}

/// Whether `to` feeds `from` through a chain of at most `steps` inputs.
pub open spec fn feeds(
    g: crate::graph::GraphModel,
    from: NodeId,
    to: NodeId,
    steps: nat,
) -> bool
    decreases steps,
{
    from == to || (steps > 0 && exists|mid: NodeId|
        feeds(g, from, mid, (steps - 1) as nat) && #[trigger] direct_source(g, mid, to))
}

/// Whether `to` feeds an input of `from`.
pub open spec fn direct_source(g: crate::graph::GraphModel, from: NodeId, to: NodeId) -> bool {
    match g.node(from) {
        Some(n) => sources_of(n.inputs).contains(to),
        None => false,
    }
}

pub(crate) proof fn lemma_feeds_monotone(
    g: crate::graph::GraphModel,
    from: NodeId,
    to: NodeId,
    less: nat,
    more: nat,
)
    requires
        feeds(g, from, to, less),
        less <= more,
    ensures
        feeds(g, from, to, more),
    decreases less,
{
    if from != to {
        let mid = choose|mid: NodeId|
            feeds(g, from, mid, (less - 1) as nat) && #[trigger] direct_source(g, mid, to);
        lemma_feeds_monotone(g, from, mid, (less - 1) as nat, (more - 1) as nat);
    }
}

proof fn lemma_walk_reaches(
    g: crate::graph::GraphModel,
    start: NodeId,
    queue: Seq<NodeId>,
    visited: Seq<NodeId>,
    steps: nat,
) -> (found_steps: nat)
    requires
        g.slots.len() <= u64::MAX,
        forall|i: int| 0 <= i < queue.len() ==> feeds(g, start, #[trigger] queue[i], steps),
        first_footage(g, start, queue, visited) is Some,
    ensures
        feeds(g, start, first_footage(g, start, queue, visited).unwrap(), found_steps),
    decreases unvisited(g.slots.len(), visited), queue.len(),
{
    let cur = queue[0];
    let rest = queue.subrange(1, queue.len() as int);
    if visited.contains(cur) {
        lemma_walk_reaches(g, start, rest, visited, steps)
    } else {
        let n = g.node(cur).unwrap();
        if n.type_id == FOOTAGE_TYPE_ID@ && cur != start {
            steps
        } else {
            let next = rest + sources_of(n.inputs);
            assert forall|i: int| 0 <= i < next.len() implies feeds(
                g,
                start,
                #[trigger] next[i],
                steps + 1,
            ) by {
                if i < rest.len() {
                    assert(next[i] == queue[i + 1]);
                    lemma_feeds_monotone(g, start, next[i], steps, steps + 1);
                } else {
                    assert(next[i] == sources_of(n.inputs)[i - rest.len()]);
                    assert(feeds(g, start, cur, steps));
                    assert(direct_source(g, cur, next[i]));
                }
            }
            lemma_unvisited_drops(g.slots.len(), visited, cur);
            lemma_walk_reaches(g, start, next, visited.push(cur), steps + 1)
        }
    }
}

proof fn lemma_walk_finds_footage(
    g: crate::graph::GraphModel,
    start: NodeId,
    queue: Seq<NodeId>,
    visited: Seq<NodeId>,
)
    requires
        g.slots.len() <= u64::MAX,
        first_footage(g, start, queue, visited) is Some,
    ensures
        ({
            let found = first_footage(g, start, queue, visited).unwrap();
            &&& found != start
            &&& g.node(found) is Some
            &&& g.node(found).unwrap().type_id == FOOTAGE_TYPE_ID@
        }),
    decreases unvisited(g.slots.len(), visited), queue.len(),
{
    let cur = queue[0];
    let rest = queue.subrange(1, queue.len() as int);
    if visited.contains(cur) {
        lemma_walk_finds_footage(g, start, rest, visited);
    } else {
        let n = g.node(cur).unwrap();
        if !(n.type_id == FOOTAGE_TYPE_ID@ && cur != start) {
            lemma_unvisited_drops(g.slots.len(), visited, cur);
            lemma_walk_finds_footage(
                g,
                start,
                rest + sources_of(n.inputs),
                visited.push(cur),
            );
        }
    }
}

/// What the walk finds is a footage node other than the start, and it feeds
/// the start through a chain of inputs.
pub proof fn lemma_input_footage(g: crate::graph::GraphModel, id: NodeId) -> (steps: nat)
    requires
        g.slots.len() <= u64::MAX,
        input_footage(g, id) is Some,
    ensures
        input_footage(g, id).unwrap() != id,
        g.node(input_footage(g, id).unwrap()) is Some,
        g.node(input_footage(g, id).unwrap()).unwrap().type_id == FOOTAGE_TYPE_ID@,
        feeds(g, id, input_footage(g, id).unwrap(), steps),
{
    lemma_walk_finds_footage(g, id, seq![id], Seq::empty());
    lemma_walk_reaches(g, id, seq![id], Seq::empty(), 0)
}

} // verus!
