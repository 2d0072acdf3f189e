//! The content length of a sequence.

use crate::graph::{Graph, NodeId};
use crate::queries::{block_core_of, sequence_behavior, track_behavior, track_list_behavior};
use crate::rational::Rational;
use vstd::prelude::*;

verus! {

/// The latest of `best` and the out points of `blocks`; entries that are no
/// block count for nothing.
pub open spec fn latest_block(
    g: crate::graph::GraphModel,
    blocks: Seq<NodeId>,
    best: Rational,
) -> Rational
    decreases blocks.len(),
{
    if blocks.len() == 0 {
        best
    } else {
        let rest = latest_block(g, blocks.drop_last(), best);
        match g.block(blocks.last()) {
            Some(core) => crate::rational::later_of(rest, core.out_point),
            None => rest,
        }
    }
}

/// The latest of `best` and the out points on `tracks`.
pub open spec fn latest_track(
    g: crate::graph::GraphModel,
    tracks: Seq<NodeId>,
    best: Rational,
) -> Rational
    decreases tracks.len(),
{
    if tracks.len() == 0 {
        best
    } else {
        let rest = latest_track(g, tracks.drop_last(), best);
        match g.track(tracks.last()) {
            Some(t) => latest_block(g, t.blocks, rest),
            None => rest,
        }
    }
}

/// The latest of `best` and the out points in `lists`.
pub open spec fn latest_list(
    g: crate::graph::GraphModel,
    lists: Seq<NodeId>,
    best: Rational,
) -> Rational
    decreases lists.len(),
{
    if lists.len() == 0 {
        best
    } else {
        let rest = latest_list(g, lists.drop_last(), best);
        match g.track_list(lists.last()) {
            Some(l) => latest_track(g, l.tracks, rest),
            None => rest,
        }
    }
}

/// The latest out point in the sequence at `seq`, never before the origin.
pub open spec fn content_length(g: crate::graph::GraphModel, seq: NodeId) -> Rational {
    match g.sequence(seq) {
        Some(s) => latest_list(g, s.track_lists, Rational { num: 0, den: 1 }),
        None => Rational { num: 0, den: 1 },
    }
}

fn scan_blocks(g: &Graph, blocks: &Vec<NodeId>, best: Rational) -> (r: Rational)
    ensures
        r == latest_block(g@, blocks@, best),
{
    let mut r: Rational = best;
    let mut i: usize = 0;
    while i < blocks.len()
        invariant
            i <= blocks.len(),
            r == latest_block(g@, blocks@.take(i as int), best),
        decreases blocks.len() - i,
    {
        proof {
            assert(blocks@.take(i + 1).drop_last() == blocks@.take(i as int));
        }
        if let Some(core) = block_core_of(g, blocks[i]) {
            r = r.max(core.out_point);
        }
        i = i + 1;
    }
    assert(blocks@.take(i as int) == blocks@);
    r
}

fn scan_tracks(g: &Graph, tracks: &Vec<NodeId>, best: Rational) -> (r: Rational)
    ensures
        r == latest_track(g@, tracks@, best),
{
    let mut r: Rational = best;
    let mut i: usize = 0;
    while i < tracks.len()
        invariant
            i <= tracks.len(),
            r == latest_track(g@, tracks@.take(i as int), best),
        decreases tracks.len() - i,
    {
        proof {
            assert(tracks@.take(i + 1).drop_last() == tracks@.take(i as int));
        }
        if let Some(t) = track_behavior(g, tracks[i]) {
            r = scan_blocks(g, &t.blocks, r);
        }
        i = i + 1;
    }
    assert(tracks@.take(i as int) == tracks@);
    r
}

/// The content length of a sequence: the latest out point across every track
/// of every list.
pub fn sequence_length(g: &Graph, seq: NodeId) -> (r: Rational)
    ensures
        r == content_length(g@, seq),
{
    let mut r: Rational = Rational::zero();
    if let Some(s) = sequence_behavior(g, seq) {
        let mut i: usize = 0;
        while i < s.track_lists.len()
            invariant
                i <= s.track_lists.len(),
                r == latest_list(g@, s.track_lists@.take(i as int), Rational { num: 0, den: 1 }),
            decreases s.track_lists.len() - i,
        {
            proof {
                assert(s.track_lists@.take(i + 1).drop_last() == s.track_lists@.take(i as int));
            }
            if let Some(l) = track_list_behavior(g, s.track_lists[i]) {
                r = scan_tracks(g, &l.tracks, r);
            }
            i = i + 1;
        }
        assert(s.track_lists@.take(i as int) == s.track_lists@);
    }
    r
}

/// `a` lies at `b` or before it; holds of every undefined `a`.
pub open spec fn not_after(a: Rational, b: Rational) -> bool {
    !crate::rational::before(b, a)
}

proof fn lemma_later_covers(a: Rational, b: Rational, x: Rational)
    requires
        a.den > 0,
        not_after(x, a) || x == b,
    ensures
        crate::rational::later_of(a, b).den > 0,
        not_after(x, crate::rational::later_of(a, b)),
        not_after(a, crate::rational::later_of(a, b)),
{
    if crate::rational::before(a, b) && x.den > 0 && not_after(x, a) {
        assert(x.num * b.den <= b.num * x.den) by (nonlinear_arith)
            requires
                a.den > 0,
                b.den > 0,
                x.den > 0,
                a.num * b.den < b.num * a.den,
                x.num * a.den <= a.num * x.den,
        ;
    }
}

proof fn lemma_not_after_transitive(a: Rational, b: Rational, c: Rational)
    requires
        b.den > 0,
        c.den > 0,
        not_after(a, b),
        not_after(b, c),
    ensures
        not_after(a, c),
{
    if a.den > 0 {
        assert(a.num * c.den <= c.num * a.den) by (nonlinear_arith)
            requires
                a.den > 0,
                b.den > 0,
                c.den > 0,
                a.num * b.den <= b.num * a.den,
                b.num * c.den <= c.num * b.den,
        ;
    }
}

proof fn lemma_latest_block(g: crate::graph::GraphModel, blocks: Seq<NodeId>, best: Rational)
    requires
        best.den > 0,
    ensures
        latest_block(g, blocks, best).den > 0,
        not_after(best, latest_block(g, blocks, best)),
        forall|i: int|
            0 <= i < blocks.len() && g.block(#[trigger] blocks[i]) is Some ==> not_after(
                g.block(blocks[i]).unwrap().out_point,
                latest_block(g, blocks, best),
            ),
    decreases blocks.len(),
{
    if blocks.len() > 0 {
        let init = blocks.drop_last();
        lemma_latest_block(g, init, best);
        let rest = latest_block(g, init, best);
        let all = latest_block(g, blocks, best);
        if let Some(core) = g.block(blocks.last()) {
            lemma_later_covers(rest, core.out_point, best);
        }
        assert forall|i: int|
            0 <= i < blocks.len() && g.block(#[trigger] blocks[i]) is Some implies not_after(
            g.block(blocks[i]).unwrap().out_point,
            all,
        ) by {
            let x = g.block(blocks[i]).unwrap().out_point;
            if i < init.len() {
                assert(init[i] == blocks[i]);
                if let Some(core) = g.block(blocks.last()) {
                    lemma_later_covers(rest, core.out_point, x);
                }
            } else {
                lemma_later_covers(rest, x, x);
            }
        }
    }
}

proof fn lemma_latest_track(g: crate::graph::GraphModel, tracks: Seq<NodeId>, best: Rational)
    requires
        best.den > 0,
    ensures
        latest_track(g, tracks, best).den > 0,
        not_after(best, latest_track(g, tracks, best)),
        forall|i: int, j: int|
            0 <= i < tracks.len() && g.track(tracks[i]) is Some && 0 <= j < g.track(
                tracks[i],
            ).unwrap().blocks.len() && g.block(
                #[trigger] g.track(tracks[i]).unwrap().blocks[j],
            ) is Some ==> not_after(
                g.block(g.track(tracks[i]).unwrap().blocks[j]).unwrap().out_point,
                latest_track(g, tracks, best),
            ),
    decreases tracks.len(),
{
    if tracks.len() > 0 {
        let init = tracks.drop_last();
        lemma_latest_track(g, init, best);
        let rest = latest_track(g, init, best);
        let all = latest_track(g, tracks, best);
        if let Some(t) = g.track(tracks.last()) {
            lemma_latest_block(g, t.blocks, rest);
            lemma_not_after_transitive(best, rest, all);
        }
        assert forall|i: int, j: int|
            0 <= i < tracks.len() && g.track(tracks[i]) is Some && 0 <= j < g.track(
                tracks[i],
            ).unwrap().blocks.len() && g.block(
                #[trigger] g.track(tracks[i]).unwrap().blocks[j],
            ) is Some implies not_after(
            g.block(g.track(tracks[i]).unwrap().blocks[j]).unwrap().out_point,
            all,
        ) by {
            let x = g.block(g.track(tracks[i]).unwrap().blocks[j]).unwrap().out_point;
            if i < init.len() {
                assert(init[i] == tracks[i]);
                assert(not_after(x, rest));
                if g.track(tracks.last()) is Some {
                    lemma_not_after_transitive(x, rest, all);
                }
            }
        }
    }
}

proof fn lemma_latest_list(g: crate::graph::GraphModel, lists: Seq<NodeId>, best: Rational)
    requires
        best.den > 0,
    ensures
        latest_list(g, lists, best).den > 0,
        not_after(best, latest_list(g, lists, best)),
        forall|l: int, i: int, j: int|
            #![trigger holds_block(g, lists, l, i, j)]
            holds_block(g, lists, l, i, j) ==> not_after(
                block_at(g, lists, l, i, j).out_point,
                latest_list(g, lists, best),
            ),
    decreases lists.len(),
{
    if lists.len() > 0 {
        let init = lists.drop_last();
        lemma_latest_list(g, init, best);
        let rest = latest_list(g, init, best);
        let all = latest_list(g, lists, best);
        if let Some(t) = g.track_list(lists.last()) {
            lemma_latest_track(g, t.tracks, rest);
            lemma_not_after_transitive(best, rest, all);
        }
        assert forall|l: int, i: int, j: int|
            #![trigger holds_block(g, lists, l, i, j)]
            holds_block(g, lists, l, i, j) implies not_after(
            block_at(g, lists, l, i, j).out_point,
            all,
        ) by {
            if l < init.len() {
                assert(init[l] == lists[l]);
                assert(holds_block(g, init, l, i, j));
                let x = block_at(g, init, l, i, j).out_point;
                assert(not_after(x, rest));
                if g.track_list(lists.last()) is Some {
                    lemma_not_after_transitive(x, rest, all);
                }
            }
        }
    }
}

/// Whether the `j`th entry of the `i`th track of the `l`th list is a block.
pub open spec fn holds_block(
    g: crate::graph::GraphModel,
    lists: Seq<NodeId>,
    l: int,
    i: int,
    j: int,
) -> bool {
    &&& 0 <= l < lists.len()
    &&& g.track_list(lists[l]) is Some
    &&& 0 <= i < g.track_list(lists[l]).unwrap().tracks.len()
    &&& g.track(g.track_list(lists[l]).unwrap().tracks[i]) is Some
    &&& 0 <= j < g.track(g.track_list(lists[l]).unwrap().tracks[i]).unwrap().blocks.len()
    &&& g.block(
        g.track(g.track_list(lists[l]).unwrap().tracks[i]).unwrap().blocks[j],
    ) is Some
}

/// The `j`th block of the `i`th track of the `l`th list.
pub open spec fn block_at(
    g: crate::graph::GraphModel,
    lists: Seq<NodeId>,
    l: int,
    i: int,
    j: int,
) -> crate::graph::Block {
    g.block(g.track(g.track_list(lists[l]).unwrap().tracks[i]).unwrap().blocks[j]).unwrap()
}

proof fn lemma_latest_block_attained(
    g: crate::graph::GraphModel,
    blocks: Seq<NodeId>,
    best: Rational,
)
    ensures
        latest_block(g, blocks, best) == best || exists|j: int|
            0 <= j < blocks.len() && g.block(#[trigger] blocks[j]) is Some && g.block(
                blocks[j],
            ).unwrap().out_point == latest_block(g, blocks, best),
    decreases blocks.len(),
{
    if blocks.len() > 0 {
        let init = blocks.drop_last();
        let rest = latest_block(g, init, best);
        lemma_latest_block_attained(g, init, best);
        if latest_block(g, blocks, best) == rest {
            if rest != best {
                let j = choose|j: int|
                    0 <= j < init.len() && g.block(#[trigger] init[j]) is Some && g.block(
                        init[j],
                    ).unwrap().out_point == rest;
                assert(blocks[j] == init[j]);
            }
        } else {
            assert(blocks[blocks.len() - 1] == blocks.last());
        }
    }
}

proof fn lemma_latest_track_attained(
    g: crate::graph::GraphModel,
    tracks: Seq<NodeId>,
    best: Rational,
)
    ensures
        latest_track(g, tracks, best) == best || exists|i: int, j: int|
            0 <= i < tracks.len() && g.track(tracks[i]) is Some && 0 <= j < g.track(
                tracks[i],
            ).unwrap().blocks.len() && g.block(
                #[trigger] g.track(tracks[i]).unwrap().blocks[j],
            ) is Some && g.block(g.track(tracks[i]).unwrap().blocks[j]).unwrap().out_point
                == latest_track(g, tracks, best),
    decreases tracks.len(),
{
    if tracks.len() > 0 {
        let init = tracks.drop_last();
        let rest = latest_track(g, init, best);
        let all = latest_track(g, tracks, best);
        lemma_latest_track_attained(g, init, best);
        if all == rest {
            if rest != best {
                let (i, j) = choose|i: int, j: int|
                    0 <= i < init.len() && g.track(init[i]) is Some && 0 <= j < g.track(
                        init[i],
                    ).unwrap().blocks.len() && g.block(
                        #[trigger] g.track(init[i]).unwrap().blocks[j],
                    ) is Some && g.block(g.track(init[i]).unwrap().blocks[j]).unwrap().out_point
                        == rest;
                assert(tracks[i] == init[i]);
                assert(g.block(g.track(tracks[i]).unwrap().blocks[j]) is Some);
            }
        } else {
            let last = tracks.len() - 1;
            let b = g.track(tracks[last]).unwrap().blocks;
            lemma_latest_block_attained(g, b, rest);
            let j = choose|j: int|
                0 <= j < b.len() && g.block(#[trigger] b[j]) is Some && g.block(
                    b[j],
                ).unwrap().out_point == all;
            assert(g.block(g.track(tracks[last]).unwrap().blocks[j]) is Some);
        }
    }
}

proof fn lemma_latest_list_attained(g: crate::graph::GraphModel, lists: Seq<NodeId>, best: Rational)
    ensures
        latest_list(g, lists, best) == best || exists|l: int, i: int, j: int|
            #[trigger] holds_block(g, lists, l, i, j) && block_at(g, lists, l, i, j).out_point
                == latest_list(g, lists, best),
    decreases lists.len(),
{
    if lists.len() > 0 {
        let init = lists.drop_last();
        let rest = latest_list(g, init, best);
        let all = latest_list(g, lists, best);
        lemma_latest_list_attained(g, init, best);
        if all == rest {
            if rest != best {
                let (l, i, j) = choose|l: int, i: int, j: int|
                    #[trigger] holds_block(g, init, l, i, j) && block_at(
                        g,
                        init,
                        l,
                        i,
                        j,
                    ).out_point == rest;
                assert(lists[l] == init[l]);
                assert(holds_block(g, lists, l, i, j));
            }
        } else {
            let last = lists.len() - 1;
            let t = g.track_list(lists[last]).unwrap().tracks;
            lemma_latest_track_attained(g, t, rest);
            let (i, j) = choose|i: int, j: int|
                0 <= i < t.len() && g.track(t[i]) is Some && 0 <= j < g.track(
                    t[i],
                ).unwrap().blocks.len() && g.block(
                    #[trigger] g.track(t[i]).unwrap().blocks[j],
                ) is Some && g.block(g.track(t[i]).unwrap().blocks[j]).unwrap().out_point == all;
            assert(holds_block(g, lists, last, i, j));
        }
    }
}

/// No block of a sequence ends after its content length, which is the origin
/// or the end of a block of the sequence, and does not lie before the origin.
pub proof fn lemma_content_length(g: crate::graph::GraphModel, seq: NodeId)
    requires
        g.sequence(seq) is Some,
    ensures
        content_length(g, seq).den > 0,
        not_after(Rational { num: 0, den: 1 }, content_length(g, seq)),
        forall|l: int, i: int, j: int|
            #![trigger holds_block(g, g.sequence(seq).unwrap().track_lists, l, i, j)]
            holds_block(g, g.sequence(seq).unwrap().track_lists, l, i, j) ==> not_after(
                block_at(g, g.sequence(seq).unwrap().track_lists, l, i, j).out_point,
                content_length(g, seq),
            ),
        content_length(g, seq) == (Rational { num: 0, den: 1 }) || exists|l: int, i: int, j: int|
            #[trigger] holds_block(g, g.sequence(seq).unwrap().track_lists, l, i, j) && block_at(
                g,
                g.sequence(seq).unwrap().track_lists,
                l,
                i,
                j,
            ).out_point == content_length(g, seq),
{
    lemma_latest_list_attained(
        g,
        g.sequence(seq).unwrap().track_lists,
        Rational { num: 0, den: 1 },
    );
    lemma_latest_list(
        g,
        g.sequence(seq).unwrap().track_lists,
        Rational { num: 0, den: 1 },
    );
}

} // verus!
