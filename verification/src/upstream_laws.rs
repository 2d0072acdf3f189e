//! The walk to the footage upstream is complete and finds the nearest.

use crate::graph::NodeId;
use vstd::prelude::*;

verus! {

/// What feeds inputs is what each of them is fed by, in their order.
pub proof fn lemma_sources(inputs: Seq<crate::graph::InputModel>)
    ensures
        crate::upstream::sources_of(inputs) == inputs.filter(
            |i: crate::graph::InputModel| i.source is Some,
        ).map_values(|i: crate::graph::InputModel| i.source.unwrap()),
    decreases inputs.len(),
{
    let fed = |i: crate::graph::InputModel| i.source is Some;
    let from = |i: crate::graph::InputModel| i.source.unwrap();
    reveal(Seq::filter);
    if inputs.len() > 0 {
        lemma_sources(inputs.drop_last());
        let init = inputs.drop_last();
        if inputs.last().source is Some {
            assert(inputs.filter(fed) =~= init.filter(fed).push(inputs.last()));
            assert(inputs.filter(fed).map_values(from) =~= init.filter(fed).map_values(from).push(
                inputs.last().source.unwrap(),
            ));
        } else {
            assert(inputs.filter(fed) =~= init.filter(fed));
        }
    } else {
        assert(inputs.filter(fed).map_values(from) =~= Seq::empty());
    }
}

/// Whether the node at `id` is footage by its type.
pub open spec fn is_footage(g: crate::graph::GraphModel, id: NodeId) -> bool {
    g.node(id) is Some && g.node(id).unwrap().type_id == "org.olivevideoeditor.Olive.footage"@
}

/// Whether every input is fed by a node that is there.
pub open spec fn sources_live(g: crate::graph::GraphModel) -> bool {
    forall|a: NodeId, b: NodeId| #[trigger]
        crate::upstream::direct_source(g, a, b) ==> g.node(b) is Some
}

/// Whether `x` is done, or among the first `k` that wait.
spec fn seen(visited: Seq<NodeId>, queue: Seq<NodeId>, k: int, x: NodeId) -> bool {
    visited.contains(x) || queue.take(k).contains(x)
}

/// The state of a walk that has done every node up to `level - 1` steps away,
/// and of which the first `k` that wait are `level` steps away.
spec fn at_level(
    g: crate::graph::GraphModel,
    start: NodeId,
    queue: Seq<NodeId>,
    visited: Seq<NodeId>,
    level: nat,
    k: int,
) -> bool {
    &&& 0 <= k <= queue.len()
    &&& forall|v: NodeId| #[trigger] visited.contains(v) ==> v == start || !is_footage(g, v)
    &&& forall|v: NodeId, x: NodeId|
        visited.contains(v) && #[trigger] crate::upstream::direct_source(g, v, x) ==> seen(
            visited,
            queue,
            queue.len() as int,
            x,
        )
    &&& forall|i: int|
        0 <= i < k ==> crate::upstream::feeds(g, start, #[trigger] queue[i], level)
    &&& forall|i: int|
        0 <= i < queue.len() ==> crate::upstream::feeds(g, start, #[trigger] queue[i], level + 1)
    &&& forall|i: int| 0 <= i < queue.len() ==> g.node(#[trigger] queue[i]) is Some
    &&& forall|x: NodeId| #[trigger]
        crate::upstream::feeds(g, start, x, level) ==> seen(visited, queue, k, x)
    &&& level > 0 ==> forall|x: NodeId| #[trigger]
        crate::upstream::feeds(g, start, x, (level - 1) as nat) ==> visited.contains(x)
}

proof fn lemma_closed(
    g: crate::graph::GraphModel,
    start: NodeId,
    visited: Seq<NodeId>,
    x: NodeId,
    steps: nat,
)
    requires
        visited.contains(start),
        forall|v: NodeId, x: NodeId|
            visited.contains(v) && #[trigger] crate::upstream::direct_source(g, v, x)
                ==> visited.contains(x),
        crate::upstream::feeds(g, start, x, steps),
    ensures
        visited.contains(x),
    decreases steps,
{
    if start != x {
        let mid = choose|mid: NodeId|
            crate::upstream::feeds(g, start, mid, (steps - 1) as nat)
                && #[trigger] crate::upstream::direct_source(g, mid, x);
        lemma_closed(g, start, visited, mid, (steps - 1) as nat);
    }
}

proof fn lemma_take_shifted(queue: Seq<NodeId>, k: int, x: NodeId)
    requires
        0 < k <= queue.len(),
        queue.take(k).contains(x),
        x != queue[0],
    ensures
        queue.subrange(1, queue.len() as int).take(k - 1).contains(x),
{
    let i = choose|i: int| 0 <= i < k && queue.take(k)[i] == x;
    assert(queue.subrange(1, queue.len() as int).take(k - 1)[i - 1] == x);
}

proof fn lemma_taken_longer(queue: Seq<NodeId>, more: Seq<NodeId>, k: int, x: NodeId)
    requires
        0 <= k <= queue.len(),
        queue.take(k).contains(x),
    ensures
        (queue + more).take(k).contains(x),
        (queue + more).take((queue + more).len() as int).contains(x),
{
    let i = choose|i: int| 0 <= i < k && queue.take(k)[i] == x;
    assert((queue + more).take(k)[i] == x);
    assert((queue + more).take((queue + more).len() as int)[i] == x);
}

proof fn lemma_pushed(visited: Seq<NodeId>, cur: NodeId, x: NodeId)
    ensures
        visited.push(cur).contains(x) == (visited.contains(x) || x == cur),
{
    let more = visited.push(cur);
    if more.contains(x) {
        let i = choose|i: int| 0 <= i < more.len() && more[i] == x;
        if i < visited.len() {
            assert(visited[i] == x);
        }
    }
    if visited.contains(x) {
        let i = choose|i: int| 0 <= i < visited.len() && visited[i] == x;
        assert(more[i] == x);
    }
    assert(more[visited.len() as int] == cur);
}

/// Taking the first that waits off the queue, done now or before.
proof fn lemma_step(
    g: crate::graph::GraphModel,
    start: NodeId,
    queue: Seq<NodeId>,
    visited: Seq<NodeId>,
    level: nat,
    k: int,
)
    requires
        sources_live(g),
        at_level(g, start, queue, visited, level, k),
        k > 0,
        visited.contains(queue[0]) || queue[0] == start || !is_footage(g, queue[0]),
    ensures
        ({
            let rest = queue.subrange(1, queue.len() as int);
            let n = g.node(queue[0]).unwrap();
            &&& visited.contains(queue[0]) ==> at_level(g, start, rest, visited, level, k - 1)
            &&& !visited.contains(queue[0]) ==> at_level(
                g,
                start,
                rest + crate::upstream::sources_of(n.inputs),
                visited.push(queue[0]),
                level,
                k - 1,
            )
        }),
{
    let cur = queue[0];
    let rest = queue.subrange(1, queue.len() as int);
    let n = g.node(cur).unwrap();
    let sources = crate::upstream::sources_of(n.inputs);
    let done = if visited.contains(cur) {
        visited
    } else {
        visited.push(cur)
    };
    let next = if visited.contains(cur) {
        rest
    } else {
        rest + sources
    };
    assert forall|x: NodeId| done.contains(x) == (visited.contains(x) || x == cur) by {
        lemma_pushed(visited, cur, x);
    }
    assert(rest + Seq::<NodeId>::empty() =~= rest);
    assert forall|j: int, x: NodeId|
        1 <= j <= queue.len() && #[trigger] seen(visited, queue, j, x) implies seen(
        done,
        next,
        j - 1,
        x,
    ) && seen(done, next, next.len() as int, x) by {
        if !done.contains(x) {
            lemma_take_shifted(queue, j, x);
            if visited.contains(cur) {
                lemma_taken_longer(rest, Seq::empty(), j - 1, x);
            } else {
                lemma_taken_longer(rest, sources, j - 1, x);
            }
        }
    }
    assert forall|v: NodeId, x: NodeId|
        done.contains(v) && #[trigger] crate::upstream::direct_source(g, v, x) implies seen(
        done,
        next,
        next.len() as int,
        x,
    ) by {
        if visited.contains(v) {
            assert(seen(visited, queue, queue.len() as int, x));
        } else {
            let i = choose|i: int| 0 <= i < sources.len() && sources[i] == x;
            assert(next.take(next.len() as int)[rest.len() + i] == x);
        }
    }
    assert forall|i: int| 0 <= i < k - 1 implies crate::upstream::feeds(
        g,
        start,
        #[trigger] next[i],
        level,
    ) by {
        assert(next[i] == queue[i + 1]);
    }
    assert forall|i: int| 0 <= i < next.len() implies crate::upstream::feeds(
        g,
        start,
        #[trigger] next[i],
        level + 1,
    ) && g.node(next[i]) is Some by {
        if i < rest.len() {
            assert(next[i] == queue[i + 1]);
        } else {
            assert(next[i] == sources[i - rest.len()]);
            assert(sources.contains(next[i]));
            assert(crate::upstream::feeds(g, start, queue[0], level));
            assert(crate::upstream::direct_source(g, cur, next[i]));
        }
    }
    assert forall|x: NodeId| #[trigger] crate::upstream::feeds(g, start, x, level) implies seen(
        done,
        next,
        k - 1,
        x,
    ) by {
        assert(seen(visited, queue, k, x));
    }
}

/// All that is `level` steps away being done, what waits is a step further.
proof fn lemma_next_level(
    g: crate::graph::GraphModel,
    start: NodeId,
    queue: Seq<NodeId>,
    visited: Seq<NodeId>,
    level: nat,
)
    requires
        at_level(g, start, queue, visited, level, 0),
    ensures
        at_level(g, start, queue, visited, level + 1, queue.len() as int),
{
    assert forall|x: NodeId| #[trigger] crate::upstream::feeds(
        g,
        start,
        x,
        level,
    ) implies visited.contains(x) by {
        assert(seen(visited, queue, 0, x));
    }
    assert forall|i: int| 0 <= i < queue.len() implies crate::upstream::feeds(
        g,
        start,
        #[trigger] queue[i],
        level + 2,
    ) by {
        crate::upstream::lemma_feeds_monotone(g, start, queue[i], level + 1, level + 2);
    }
    assert forall|x: NodeId| #[trigger]
        crate::upstream::feeds(g, start, x, level + 1) implies seen(
        visited,
        queue,
        queue.len() as int,
        x,
    ) by {
        if x == start {
            assert(crate::upstream::feeds(g, start, x, level));
        } else {
            let mid = choose|mid: NodeId|
                crate::upstream::feeds(g, start, mid, level)
                    && #[trigger] crate::upstream::direct_source(g, mid, x);
            assert(visited.contains(mid));
        }
    }
}

proof fn lemma_walk(
    g: crate::graph::GraphModel,
    start: NodeId,
    queue: Seq<NodeId>,
    visited: Seq<NodeId>,
    level: nat,
    k: int,
    footage: NodeId,
    steps: nat,
)
    requires
        g.slots.len() <= u64::MAX,
        sources_live(g),
        at_level(g, start, queue, visited, level, k),
        is_footage(g, footage),
        footage != start,
        crate::upstream::feeds(g, start, footage, steps),
    ensures
        crate::upstream::first_footage(g, start, queue, visited) is Some,
        crate::upstream::feeds(
            g,
            start,
            crate::upstream::first_footage(g, start, queue, visited).unwrap(),
            steps,
        ),
    decreases
            crate::upstream::unvisited(g.slots.len(), visited),
            queue.len(),
            (if k == 0 {
                1int
            } else {
                0int
            }),
{
    if queue.len() == 0 {
        assert(crate::upstream::feeds(g, start, start, level));
        assert(seen(visited, queue, k, start));
        assert forall|v: NodeId, x: NodeId|
            visited.contains(v) && #[trigger] crate::upstream::direct_source(
                g,
                v,
                x,
            ) implies visited.contains(x) by {
            assert(seen(visited, queue, queue.len() as int, x));
        }
        lemma_closed(g, start, visited, footage, steps);
        assert(false);
    } else if k == 0 {
        lemma_next_level(g, start, queue, visited, level);
        lemma_walk(
            g,
            start,
            queue,
            visited,
            level + 1,
            queue.len() as int,
            footage,
            steps,
        );
    } else {
        let cur = queue[0];
        let rest = queue.subrange(1, queue.len() as int);
        let n = g.node(cur).unwrap();
        if visited.contains(cur) {
            lemma_step(g, start, queue, visited, level, k);
            lemma_walk(g, start, rest, visited, level, k - 1, footage, steps);
        } else if is_footage(g, cur) && cur != start {
            assert(crate::upstream::feeds(g, start, queue[0], level));
            if steps >= level {
                crate::upstream::lemma_feeds_monotone(g, start, cur, level, steps);
            } else {
                crate::upstream::lemma_feeds_monotone(
                    g,
                    start,
                    footage,
                    steps,
                    (level - 1) as nat,
                );
                assert(visited.contains(footage));
                assert(false);
            }
        } else {
            lemma_step(g, start, queue, visited, level, k);
            crate::upstream::lemma_unvisited_drops(g.slots.len(), visited, cur);
            lemma_walk(
                g,
                start,
                rest + crate::upstream::sources_of(n.inputs),
                visited.push(cur),
                level,
                k - 1,
                footage,
                steps,
            );
        }
    }
}

/// Where footage feeds a node, footage is found, and no other footage that
/// feeds the node is fewer inputs away.
pub proof fn lemma_nearest_footage(
    g: crate::graph::GraphModel,
    id: NodeId,
    footage: NodeId,
    steps: nat,
)
    requires
        g.slots.len() <= u64::MAX,
        sources_live(g),
        g.node(id) is Some,
        is_footage(g, footage),
        footage != id,
        crate::upstream::feeds(g, id, footage, steps),
    ensures
        crate::upstream::input_footage(g, id) is Some,
        is_footage(g, crate::upstream::input_footage(g, id).unwrap()),
        crate::upstream::feeds(g, id, crate::upstream::input_footage(g, id).unwrap(), steps),
{
    let queue = seq![id];
    let visited = Seq::<NodeId>::empty();
    assert(at_level(g, id, queue, visited, 0, 1)) by {
        assert forall|x: NodeId| #[trigger] crate::upstream::feeds(g, id, x, 0) implies seen(
            visited,
            queue,
            1,
            x,
        ) by {
            assert(queue.take(1)[0] == x);
        }
    }
    lemma_walk(g, id, queue, visited, 0, 1, footage, steps);
    let found = crate::upstream::lemma_input_footage(g, id);
}

/// Where no footage feeds a node, none is found.
pub proof fn lemma_no_footage(g: crate::graph::GraphModel, id: NodeId)
    requires
        g.slots.len() <= u64::MAX,
        forall|f: NodeId, steps: nat|
            f != id && is_footage(g, f) ==> !#[trigger] crate::upstream::feeds(g, id, f, steps),
    ensures
        crate::upstream::input_footage(g, id) is None,
{
    if crate::upstream::input_footage(g, id) is Some {
        let steps = crate::upstream::lemma_input_footage(g, id);
        let f = crate::upstream::input_footage(g, id).unwrap();
        assert(!crate::upstream::feeds(g, id, f, steps));
    }
}

} // verus!
