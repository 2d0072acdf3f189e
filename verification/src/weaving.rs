//! New blocks among old ones: where the blocks of a track stand after each
//! new one entered right behind its anchor.

use crate::graph::NodeId;
use crate::transition_laws::Step;
use vstd::prelude::*;

verus! {

/// The blocks of the track at `track` after the steps, `b` being those before
/// them.
pub open spec fn woven(b: Seq<NodeId>, track: NodeId, steps: Seq<Step>) -> Seq<NodeId>
    decreases steps.len(),
{
    if steps.len() == 0 {
        b
    } else {
        let f = woven(b, track, steps.drop_last());
        let s = steps.last();
        if s.track == track {
            crate::commands::inserted_after(f, s.block, s.anchor)
        } else {
            f
        }
    }
}

/// Whether `y` stands right behind `x`.
pub open spec fn follows(b: Seq<NodeId>, x: NodeId, y: NodeId) -> bool {
    exists|i: int| 0 <= i < b.len() - 1 && #[trigger] b[i] == x && b[i + 1] == y
}

/// The block behind index `k`.
pub open spec fn behind(f: Seq<NodeId>, k: int) -> NodeId {
    f[k + 1]
}

/// How the blocks `f` come from the blocks `b`: new blocks, those from `n`
/// on, stand between the old ones, which keep their order.
pub open spec fn interleaved(b: Seq<NodeId>, f: Seq<NodeId>, n: int, limit: int) -> bool {
    &&& f.no_duplicates()
    &&& forall|k: int| 0 <= k < f.len() ==> (#[trigger] f[k]) < limit
    &&& forall|x: NodeId| x < n ==> #[trigger] f.contains(x) == b.contains(x)
    &&& forall|k: int|
        0 <= k < f.len() - 1 && f[k] < n && #[trigger] behind(f, k) < n ==> follows(
            b,
            f[k],
            behind(f, k),
        )
    &&& f.len() > 0 && f[0] < n ==> b.len() > 0 && b[0] == f[0]
    &&& f.len() > 0 && f.last() < n ==> b.len() > 0 && b.last() == f.last()
}

pub(crate) proof fn lemma_follows_unique(b: Seq<NodeId>, x: NodeId, y: NodeId, i: int)
    requires
        b.no_duplicates(),
        follows(b, x, y),
        0 <= i < b.len(),
        b[i] == x,
    ensures
        i + 1 < b.len(),
        b[i + 1] == y,
{
    let j = choose|j: int| 0 <= j < b.len() - 1 && #[trigger] b[j] == x && b[j + 1] == y;
    assert(i == j);
}

pub(crate) proof fn lemma_insert_contains(f: Seq<NodeId>, p: int, t: NodeId, x: NodeId)
    requires
        0 <= p <= f.len(),
    ensures
        f.insert(p, t).contains(x) == (f.contains(x) || x == t),
{
    let f2 = f.insert(p, t);
    assert(f2[p] == t);
    if f2.contains(x) {
        let k = choose|k: int| 0 <= k < f2.len() && f2[k] == x;
        if k < p {
            assert(f[k] == x);
        } else if k > p {
            assert(f[k - 1] == x);
        }
    }
    if f.contains(x) {
        let k = choose|k: int| 0 <= k < f.len() && f[k] == x;
        if k < p {
            assert(f2[k] == x);
        } else {
            assert(f2[k + 1] == x);
        }
    }
}

/// Inserting a new block keeps the old ones in order.
proof fn lemma_interleaved_insert(
    b: Seq<NodeId>,
    f: Seq<NodeId>,
    p: int,
    t: NodeId,
    n: int,
    limit: int,
)
    requires
        interleaved(b, f, n, limit),
        0 <= p <= f.len(),
        t == limit,
        n <= limit,
    ensures
        interleaved(b, f.insert(p, t), n, limit + 1),
{
    let f2 = f.insert(p, t);
    assert forall|k: int| 0 <= k < f2.len() implies (#[trigger] f2[k]) < limit + 1 by {
        if k < p {
            assert(f2[k] == f[k]);
        } else if k > p {
            assert(f2[k] == f[k - 1]);
        }
    }
    assert forall|k: int, m: int| 0 <= k < f2.len() && 0 <= m < f2.len() && k != m implies f2[k]
        != f2[m] by {
        let x = if k < p {
            k
        } else {
            k - 1
        };
        let y = if m < p {
            m
        } else {
            m - 1
        };
        if k != p {
            assert(f2[k] == f[x]);
        }
        if m != p {
            assert(f2[m] == f[y]);
        }
    }
    assert forall|x: NodeId| x < n implies #[trigger] f2.contains(x) == b.contains(x) by {
        lemma_insert_contains(f, p, t, x);
        assert(f.contains(x) == b.contains(x));
    }
    assert forall|k: int| 0 <= k < f2.len() - 1 && f2[k] < n && #[trigger] behind(f2, k)
        < n implies follows(b, f2[k], behind(f2, k)) by {
        if k + 1 < p {
            assert(f2[k] == f[k] && behind(f2, k) == behind(f, k));
        } else if k > p {
            assert(f2[k] == f[k - 1] && behind(f2, k) == behind(f, k - 1));
        }
    }
    if f2[0] < n {
        assert(p > 0);
        assert(f2[0] == f[0]);
    }
    if f2.last() < n {
        assert(p < f.len());
        assert(f2.last() == f.last());
    }
}

/// Whether `x` stands right behind the anchor, the head of the track where
/// there is none.
pub open spec fn right_behind(f: Seq<NodeId>, anchor: Option<NodeId>, x: NodeId) -> bool {
    match anchor {
        Some(a) => follows(f, a, x),
        None => f.len() > 0 && f[0] == x,
    }
}

/// Whether a step enters a block at this place.
pub open spec fn at_place(s: Step, track: NodeId, anchor: Option<NodeId>) -> bool {
    s.track == track && s.anchor == anchor
}

/// Whether one of the steps enters a block at this place.
pub open spec fn some_at(steps: Seq<Step>, track: NodeId, anchor: Option<NodeId>) -> bool {
    exists|j: int| 0 <= j < steps.len() && at_place(#[trigger] steps[j], track, anchor)
}

/// Whether no step before `j` enters a block where that one does.
pub open spec fn earliest(steps: Seq<Step>, j: int) -> bool {
    forall|k: int| 0 <= k < j ==> !at_place(#[trigger] steps[k], steps[j].track, steps[j].anchor)
}

/// Whether no step behind `j` enters a block where that one does.
pub open spec fn latest(steps: Seq<Step>, j: int) -> bool {
    forall|k: int|
        j < k < steps.len() ==> !at_place(#[trigger] steps[k], steps[j].track, steps[j].anchor)
}

/// Whether the steps enter new blocks, those from `n` on, in order, and on
/// this track each behind a block of `b` or at the head.
pub open spec fn anchored(b: Seq<NodeId>, track: NodeId, steps: Seq<Step>, n: int) -> bool {
    forall|j: int|
        0 <= j < steps.len() ==> {
            let s = #[trigger] steps[j];
            &&& s.block == n + j
            &&& s.track == track ==> (s.anchor matches Some(a) ==> b.contains(a))
        }
}

/// What is known of the blocks `f` after the steps.
pub open spec fn arranged(
    b: Seq<NodeId>,
    f: Seq<NodeId>,
    track: NodeId,
    steps: Seq<Step>,
    n: int,
) -> bool {
    &&& interleaved(b, f, n, n + steps.len())
    &&& forall|j: int|
        0 <= j < steps.len() && (#[trigger] steps[j]).track == track ==> f.contains(steps[j].block)
    &&& forall|k: int|
        0 <= k < f.len() - 1 && f[k] < n && #[trigger] behind(f, k) >= n ==> some_at(
            steps,
            track,
            Some(f[k]),
        )
    &&& f.len() > 0 && f[0] >= n ==> some_at(steps, track, None)
    &&& forall|j: int|
        0 <= j < steps.len() && (#[trigger] steps[j]).track == track && latest(steps, j)
            ==> right_behind(f, steps[j].anchor, steps[j].block)
    &&& forall|j: int, y: NodeId|
        #![trigger steps[j], right_behind(b, steps[j].anchor, y)]
        0 <= j < steps.len() && steps[j].track == track && earliest(steps, j) && right_behind(
            b,
            steps[j].anchor,
            y,
        ) ==> follows(f, steps[j].block, y)
}

proof fn lemma_nothing_woven(b: Seq<NodeId>, track: NodeId, n: int)
    requires
        b.no_duplicates(),
        forall|i: int| 0 <= i < b.len() ==> (#[trigger] b[i]) < n,
    ensures
        arranged(b, b, track, Seq::empty(), n),
{
    assert forall|k: int| 0 <= k < b.len() - 1 && b[k] < n && #[trigger] behind(b, k)
        < n implies follows(b, b[k], behind(b, k)) by {
        assert(b[k + 1] == behind(b, k));
    }
    assert forall|k: int| 0 <= k < b.len() - 1 implies #[trigger] behind(b, k) < n by {
        assert(b[k + 1] < n);
    }
}

proof fn lemma_more_at(steps: Seq<Step>, s: Step, track: NodeId, anchor: Option<NodeId>)
    ensures
        some_at(steps.push(s), track, anchor) == (some_at(steps, track, anchor) || at_place(
            s,
            track,
            anchor,
        )),
{
    let all = steps.push(s);
    if some_at(all, track, anchor) {
        let j = choose|j: int| 0 <= j < all.len() && at_place(#[trigger] all[j], track, anchor);
        if j < steps.len() {
            assert(at_place(steps[j], track, anchor));
        }
    }
    if some_at(steps, track, anchor) {
        let j = choose|j: int|
            0 <= j < steps.len() && at_place(#[trigger] steps[j], track, anchor);
        assert(at_place(all[j], track, anchor));
    }
    assert(all[steps.len() as int] == s);
}

proof fn lemma_follows_kept(f: Seq<NodeId>, p: int, t: NodeId, x: NodeId, y: NodeId)
    requires
        f.no_duplicates(),
        0 <= p <= f.len(),
        follows(f, x, y),
        p > 0 ==> f[p - 1] != x,
    ensures
        follows(f.insert(p, t), x, y),
{
    let k = choose|k: int| 0 <= k < f.len() - 1 && #[trigger] f[k] == x && f[k + 1] == y;
    let more = f.insert(p, t);
    if k < p {
        assert(more[k] == x && more[k + 1] == y);
    } else {
        assert(more[k + 1] == x && more[k + 1 + 1] == y);
    }
}

/// One more step on the track.
proof fn lemma_arranged_insert(
    b: Seq<NodeId>,
    f: Seq<NodeId>,
    steps: Seq<Step>,
    s: Step,
    n: int,
)
    requires
        arranged(b, f, s.track, steps, n),
        b.no_duplicates(),
        forall|i: int| 0 <= i < b.len() ==> (#[trigger] b[i]) < n,
        anchored(b, s.track, steps.push(s), n),
    ensures
        arranged(
            b,
            crate::commands::inserted_after(f, s.block, s.anchor),
            s.track,
            steps.push(s),
            n,
        ),
{
    let all = steps.push(s);
    let track = s.track;
    let limit = n + steps.len();
    let t = s.block;
    assert(all[steps.len() as int] == s);
    assert(t == limit);
    let p = match s.anchor {
        Some(a) => crate::list::position_of(f, a).unwrap() + 1,
        None => 0,
    };
    if let Some(a) = s.anchor {
        let i = choose|i: int| 0 <= i < b.len() && b[i] == a;
        assert(b[i] < n);
        assert(f.contains(a) == b.contains(a));
        crate::list::lemma_position(f, a);
        assert(f[p - 1] == a);
    }
    let f2 = f.insert(p, t);
    assert(crate::commands::inserted_after(f, t, s.anchor) == f2);
    assert(f2[p] == t);
    lemma_interleaved_insert(b, f, p, t, n, limit);
    assert forall|j: int| 0 <= j < all.len() && (#[trigger] all[j]).track == track implies f2.contains(
        all[j].block,
    ) by {
        lemma_insert_contains(f, p, t, all[j].block);
        if j < steps.len() {
            assert(all[j] == steps[j]);
        }
    }
    assert forall|k: int| 0 <= k < f2.len() - 1 && f2[k] < n && #[trigger] behind(f2, k)
        >= n implies some_at(all, track, Some(f2[k])) by {
        lemma_more_at(steps, s, track, Some(f2[k]));
        if k + 1 < p {
            assert(f2[k] == f[k] && behind(f2, k) == behind(f, k));
        } else if k > p {
            assert(f2[k] == f[k - 1] && behind(f2, k) == behind(f, k - 1));
        } else if k + 1 == p {
            assert(f2[k] == f[k]);
            assert(s.anchor == Some(f2[k]));
        }
    }
    if f2[0] >= n {
        lemma_more_at(steps, s, track, None);
        if p > 0 {
            assert(f2[0] == f[0]);
        }
    }
    assert forall|j: int| 0 <= j < all.len() && (#[trigger] all[j]).track == track && latest(
        all,
        j,
    ) implies right_behind(f2, all[j].anchor, all[j].block) by {
        if j < steps.len() {
            let q = steps[j];
            assert(all[j] == q);
            assert(!at_place(all[steps.len() as int], q.track, q.anchor));
            assert(latest(steps, j)) by {
                assert forall|k: int| j < k < steps.len() implies !at_place(
                    #[trigger] steps[k],
                    q.track,
                    q.anchor,
                ) by {
                    assert(all[k] == steps[k]);
                }
            }
            assert(right_behind(f, q.anchor, q.block));
            match q.anchor {
                Some(a) => {
                    lemma_follows_kept(f, p, t, a, q.block);
                },
                None => {
                    assert(p > 0);
                    assert(f2[0] == f[0]);
                },
            }
        } else if let Some(a) = s.anchor {
            assert(f2[p - 1] == a && f2[p - 1 + 1] == t);
            assert(follows(f2, a, t));
        }
    }
    assert forall|j: int, y: NodeId|
        #![trigger all[j], right_behind(b, all[j].anchor, y)]
        0 <= j < all.len() && all[j].track == track && earliest(all, j) && right_behind(
            b,
            all[j].anchor,
            y,
        ) implies follows(f2, all[j].block, y) by {
        if j < steps.len() {
            let q = steps[j];
            assert(all[j] == q);
            assert(earliest(steps, j)) by {
                assert forall|k: int| 0 <= k < j implies !at_place(
                    #[trigger] steps[k],
                    q.track,
                    q.anchor,
                ) by {
                    assert(all[k] == steps[k]);
                }
            }
            assert(right_behind(b, steps[j].anchor, y));
            assert(q.block >= n);
            lemma_follows_kept(f, p, t, q.block, y);
        } else {
            assert(!some_at(steps, track, s.anchor)) by {
                if some_at(steps, track, s.anchor) {
                    let k = choose|k: int|
                        0 <= k < steps.len() && at_place(#[trigger] steps[k], track, s.anchor);
                    assert(at_place(all[k], s.track, s.anchor));
                }
            }
            match s.anchor {
                Some(a) => {
                    let i = choose|i: int|
                        0 <= i < b.len() - 1 && #[trigger] b[i] == a && b[i + 1] == y;
                    assert(p < f.len()) by {
                        if p == f.len() {
                            assert(f.last() == a);
                            assert(b.last() == a);
                            assert(b[b.len() - 1] == b[i]);
                        }
                    }
                    assert(behind(f, p - 1) == f[p]);
                    lemma_follows_unique(b, a, f[p], i);
                },
                None => {
                    assert(b.contains(y));
                    assert(b[0] < n);
                    assert(f.contains(y) == b.contains(y));
                    assert(f[0] < n);
                },
            }
            assert(f2[p] == t && f2[p + 1] == y);
            assert(follows(f2, t, y));
        }
    }
}

/// One more step on another track.
proof fn lemma_arranged_elsewhere(
    b: Seq<NodeId>,
    f: Seq<NodeId>,
    track: NodeId,
    steps: Seq<Step>,
    s: Step,
    n: int,
)
    requires
        arranged(b, f, track, steps, n),
        s.track != track,
    ensures
        arranged(b, f, track, steps.push(s), n),
{
    let all = steps.push(s);
    assert(all[steps.len() as int] == s);
    assert forall|k: int| 0 <= k < f.len() - 1 && f[k] < n && #[trigger] behind(f, k)
        >= n implies some_at(all, track, Some(f[k])) by {
        lemma_more_at(steps, s, track, Some(f[k]));
    }
    lemma_more_at(steps, s, track, None);
    assert forall|j: int| 0 <= j < all.len() && (#[trigger] all[j]).track == track implies f.contains(
        all[j].block,
    ) && (latest(all, j) ==> right_behind(f, all[j].anchor, all[j].block)) by {
        assert(all[j] == steps[j]);
        if latest(all, j) {
            assert(latest(steps, j)) by {
                assert forall|k: int| j < k < steps.len() implies !at_place(
                    #[trigger] steps[k],
                    steps[j].track,
                    steps[j].anchor,
                ) by {
                    assert(all[k] == steps[k]);
                }
            }
        }
    }
    assert forall|j: int, y: NodeId|
        #![trigger all[j], right_behind(b, all[j].anchor, y)]
        0 <= j < all.len() && all[j].track == track && earliest(all, j) && right_behind(
            b,
            all[j].anchor,
            y,
        ) implies follows(f, all[j].block, y) by {
        assert(all[j] == steps[j]);
        assert(earliest(steps, j)) by {
            assert forall|k: int| 0 <= k < j implies !at_place(
                #[trigger] steps[k],
                steps[j].track,
                steps[j].anchor,
            ) by {
                assert(all[k] == steps[k]);
            }
        }
        assert(right_behind(b, steps[j].anchor, y));
    }
}

/// Where the blocks stand after the steps: the old ones keep their order, and
/// of the new ones behind one anchor the last to enter is next to it and the
/// first is next to what stood behind it.
pub proof fn lemma_woven(b: Seq<NodeId>, track: NodeId, steps: Seq<Step>, n: int)
    requires
        b.no_duplicates(),
        forall|i: int| 0 <= i < b.len() ==> (#[trigger] b[i]) < n,
        anchored(b, track, steps, n),
    ensures
        arranged(b, woven(b, track, steps), track, steps, n),
    decreases steps.len(),
{
    if steps.len() == 0 {
        lemma_nothing_woven(b, track, n);
        assert(steps =~= Seq::empty());
    } else {
        let init = steps.drop_last();
        let s = steps.last();
        assert(init.push(s) =~= steps);
        assert forall|j: int| 0 <= j < init.len() implies {
            let q = #[trigger] init[j];
            &&& q.block == n + j
            &&& q.track == track ==> (q.anchor matches Some(a) ==> b.contains(a))
        } by {
            assert(init[j] == steps[j]);
        }
        lemma_woven(b, track, init, n);
        let f = woven(b, track, init);
        if s.track == track {
            lemma_arranged_insert(b, f, init, s, n);
        } else {
            lemma_arranged_elsewhere(b, f, track, init, s, n);
        }
    }
}

} // verus!
