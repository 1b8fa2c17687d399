//! Chain ordering: within a slice, chains print in a travel-minimizing
//! order, each chosen as the nearest to where the head stopped.

use vstd::multiset::Multiset;
use vstd::prelude::*;

use crate::commands::{pt_bounded, Move, MoveChain, Point2};

verus! {

/// Mathematical view of a move chain.
pub ghost struct MoveChainV {
    /// Where the chain begins.
    pub start_point: Point2,
    /// The moves of the chain, in order.
    pub moves: Seq<Move>,
}

impl View for MoveChain {
    type V = MoveChainV;

    open spec fn view(&self) -> MoveChainV {
        MoveChainV { start_point: self.start_point, moves: self.moves@ }
    }
}

/// The views of a list of chains, in order.
pub open spec fn chains_view(s: Seq<MoveChain>) -> Seq<MoveChainV> {
    s.map_values(|c: MoveChain| c@)
}

/// The squared distance between two points.
pub open spec fn sqdist(a: Point2, b: Point2) -> int {
    (b.x - a.x) * (b.x - a.x) + (b.y - a.y) * (b.y - a.y)
}

/// Where the head stops after a chain: at its last move's end, or at its
/// start when it has no moves.
pub open spec fn chain_stop(c: MoveChainV) -> Point2 {
    if c.moves.len() == 0 {
        c.start_point
    } else {
        c.moves.last().end
    }
}

/// Where the head is before printing chain `i` of an ordered run that
/// begins at `start`.
pub open spec fn head_before(s: Seq<MoveChainV>, i: int, start: Point2) -> Point2 {
    if i == 0 {
        start
    } else {
        chain_stop(s[i - 1])
    }
}

/// True when every point of every chain is in the exact-arithmetic range.
pub open spec fn chains_bounded(s: Seq<MoveChainV>) -> bool {
    forall|i: int|
        0 <= i < s.len() ==> pt_bounded((#[trigger] s[i]).start_point) && (forall|m: int|
            0 <= m < s[i].moves.len() ==> pt_bounded((#[trigger] s[i].moves[m]).end))
}

/// True when at every position no later chain would have been nearer: the
/// greedy travel-minimizing order.
pub open spec fn greedy_ordered(s: Seq<MoveChainV>, start: Point2) -> bool {
    forall|i: int, j: int|
        0 <= i < j < s.len() ==> sqdist(
            head_before(s, i, start),
            (#[trigger] s[i]).start_point,
        ) <= sqdist(head_before(s, i, start), (#[trigger] s[j]).start_point)
}

/// Computes the squared distance exactly.
fn sqdist_exec(a: Point2, b: Point2) -> (r: i128)
    requires
        pt_bounded(a),
        pt_bounded(b),
    ensures
        r == sqdist(a, b),
{
    let dx: i128 = b.x as i128 - a.x as i128;
    let dy: i128 = b.y as i128 - a.y as i128;
    proof {
        assert(dx * dx >= 0 && dx * dx <= 19342813113834066795298816 && dy * dy >= 0 && dy * dy
            <= 19342813113834066795298816) by (nonlinear_arith)
            requires
                -2199023255552 <= dx <= 2199023255552,
                -2199023255552 <= dy <= 2199023255552,
        ;
    }
    dx * dx + dy * dy
}

/// Hands back where the head stops after the chain.
pub fn chain_stop_exec(c: &MoveChain) -> (r: Point2)
    ensures
        r == chain_stop(c@),
{
    if c.moves.len() == 0 {
        c.start_point
    } else {
        c.moves[c.moves.len() - 1].end
    }
}

/// Viewing a chain list distributes over removing one chain.
proof fn lemma_chains_view_remove(s: Seq<MoveChain>, i: int)
    requires
        0 <= i < s.len(),
    ensures
        chains_view(s.remove(i)) == chains_view(s).remove(i),
{
    assert forall|j: int| 0 <= j < s.len() - 1 implies chains_view(s.remove(i))[j] == chains_view(
        s,
    ).remove(i)[j] by {
        if j < i {
            assert(s.remove(i)[j] == s[j]);
        } else {
            assert(s.remove(i)[j] == s[j + 1]);
        }
    }
    assert(chains_view(s.remove(i)) =~= chains_view(s).remove(i));
}

/// Viewing a chain list distributes over appending one chain.
pub proof fn lemma_chains_view_push(s: Seq<MoveChain>, c: MoveChain)
    ensures
        chains_view(s.push(c)) == chains_view(s).push(c@),
{
    assert forall|j: int| 0 <= j < s.len() + 1 implies chains_view(s.push(c))[j] == chains_view(
        s,
    ).push(c@)[j] by {
        if j < s.len() {
            assert(s.push(c)[j] == s[j]);
        } else {
            assert(s.push(c)[j] == c);
        }
    }
    assert(chains_view(s.push(c)) =~= chains_view(s).push(c@));
}

/// Decides whether every point of every chain is in the exact-arithmetic
/// range.
pub fn chains_all_bounded(chains: &Vec<MoveChain>) -> (r: bool)
    ensures
        r == chains_bounded(chains_view(chains@)),
{
    let mut i: usize = 0;
    while i < chains.len()
        invariant
            i <= chains@.len(),
            forall|q: int|
                0 <= q < i ==> pt_bounded((#[trigger] chains_view(chains@)[q]).start_point) && (
                forall|m: int|
                    0 <= m < chains_view(chains@)[q].moves.len() ==> pt_bounded(
                        (#[trigger] chains_view(chains@)[q].moves[m]).end,
                    )),
        decreases chains@.len() - i,
    {
        let c = &chains[i];
        proof {
            assert(chains_view(chains@)[i as int] == chains@[i as int]@);
        }
        if !(-crate::commands::MAX_COORD <= c.start_point.x && c.start_point.x
            <= crate::commands::MAX_COORD && -crate::commands::MAX_COORD <= c.start_point.y
            && c.start_point.y <= crate::commands::MAX_COORD) {
            proof {
                assert(!pt_bounded(chains_view(chains@)[i as int].start_point));
            }
            return false;
        }
        let mut m: usize = 0;
        while m < c.moves.len()
            invariant
                m <= c.moves@.len(),
                i < chains@.len(),
                c == chains@[i as int],
                forall|w: int|
                    0 <= w < m ==> pt_bounded((#[trigger] chains_view(chains@)[i as int].moves[w]).end),
            decreases c.moves@.len() - m,
        {
            let e = c.moves[m].end;
            if !(-crate::commands::MAX_COORD <= e.x && e.x <= crate::commands::MAX_COORD
                && -crate::commands::MAX_COORD <= e.y && e.y <= crate::commands::MAX_COORD) {
                proof {
                    assert(!pt_bounded(chains_view(chains@)[i as int].moves[m as int].end));
                }
                return false;
            }
            m = m + 1;
        }
        i = i + 1;
    }
    true
}

/// One step of the greedy ordering keeps every invariant: the chosen
/// nearest chain moves from the pool to the run.
#[verifier::rlimit(100)]
proof fn lemma_order_step(
    start: Point2,
    old_pos: Point2,
    pre_res: Seq<MoveChainV>,
    pre_rem: Seq<MoveChainV>,
    best: int,
    res2: Seq<MoveChainV>,
    rem2: Seq<MoveChainV>,
    new_pos: Point2,
    orig_m: Multiset<MoveChainV>,
)
    requires
        0 <= best < pre_rem.len(),
        res2 == pre_res.push(pre_rem[best]),
        rem2 == pre_rem.remove(best),
        new_pos == chain_stop(pre_rem[best]),
        old_pos == head_before(pre_res, pre_res.len() as int, start),
        greedy_ordered(pre_res, start),
        forall|i: int, c: int|
            0 <= i < pre_res.len() && 0 <= c < pre_rem.len() ==> sqdist(
                head_before(pre_res, i, start),
                (#[trigger] pre_res[i]).start_point,
            ) <= sqdist(head_before(pre_res, i, start), (#[trigger] pre_rem[c]).start_point),
        forall|c: int|
            0 <= c < pre_rem.len() ==> sqdist(old_pos, pre_rem[best].start_point) <= sqdist(
                old_pos,
                (#[trigger] pre_rem[c]).start_point,
            ),
        pre_res.to_multiset().add(pre_rem.to_multiset()) == orig_m,
        chains_bounded(pre_res),
        chains_bounded(pre_rem),
    ensures
        res2.to_multiset().add(rem2.to_multiset()) == orig_m,
        chains_bounded(res2),
        chains_bounded(rem2),
        new_pos == head_before(res2, res2.len() as int, start),
        greedy_ordered(res2, start),
        forall|i: int, c: int|
            0 <= i < res2.len() && 0 <= c < rem2.len() ==> sqdist(
                head_before(res2, i, start),
                (#[trigger] res2[i]).start_point,
            ) <= sqdist(head_before(res2, i, start), (#[trigger] rem2[c]).start_point),
{
    broadcast use vstd::seq_lib::group_to_multiset_ensures;

    let cv = pre_rem[best];
    assert(pre_rem.contains(cv)) by {
        assert(pre_rem[best] == cv);
    }
    vstd::seq_lib::to_multiset_contains::<MoveChainV>(pre_rem, cv);
    vstd::seq_lib::to_multiset_build::<MoveChainV>(pre_res, cv);
    vstd::seq_lib::to_multiset_remove::<MoveChainV>(pre_rem, best);
    assert(pre_rem.to_multiset().count(cv) >= 1);
    assert(res2.to_multiset().add(rem2.to_multiset()) =~= orig_m);
    let rl = res2.len() as int;
    assert forall|i: int|
        0 <= i < rl - 1 implies head_before(res2, i, start) == head_before(pre_res, i, start)
        && res2[i] == pre_res[i] by {
        if i > 0 {
            assert(res2[i - 1] == pre_res[i - 1]);
        }
    }
    assert(head_before(res2, rl - 1, start) == old_pos);
    assert(head_before(res2, rl, start) == new_pos);
    assert(chains_bounded(res2)) by {
        assert forall|i: int| 0 <= i < res2.len() implies pt_bounded(
            (#[trigger] res2[i]).start_point,
        ) && (forall|m: int|
            0 <= m < res2[i].moves.len() ==> pt_bounded((#[trigger] res2[i].moves[m]).end)) by {
            if i < rl - 1 {
                assert(res2[i] == pre_res[i]);
            } else {
                assert(res2[i] == cv);
            }
        }
    }
    assert(chains_bounded(rem2)) by {
        assert forall|i: int| 0 <= i < rem2.len() implies pt_bounded(
            (#[trigger] rem2[i]).start_point,
        ) && (forall|m: int|
            0 <= m < rem2[i].moves.len() ==> pt_bounded((#[trigger] rem2[i].moves[m]).end)) by {
            if i < best {
                assert(rem2[i] == pre_rem[i]);
            } else {
                assert(rem2[i] == pre_rem[i + 1]);
            }
        }
    }
    assert(greedy_ordered(res2, start)) by {
        assert forall|i: int, j2: int|
            0 <= i < j2 < rl implies sqdist(
            head_before(res2, i, start),
            (#[trigger] res2[i]).start_point,
        ) <= sqdist(head_before(res2, i, start), (#[trigger] res2[j2]).start_point) by {
            if j2 == rl - 1 {
                if i < rl - 1 {
                    assert(sqdist(head_before(pre_res, i, start), pre_res[i].start_point)
                        <= sqdist(head_before(pre_res, i, start), cv.start_point));
                }
            }
        }
    }
    assert forall|i: int, c: int|
        0 <= i < rl && 0 <= c < rem2.len() implies sqdist(
        head_before(res2, i, start),
        (#[trigger] res2[i]).start_point,
    ) <= sqdist(head_before(res2, i, start), (#[trigger] rem2[c]).start_point) by {
        assert(rem2[c] == (if c < best {
            pre_rem[c]
        } else {
            pre_rem[c + 1]
        }));
        if i < rl - 1 {
            assert(sqdist(head_before(pre_res, i, start), pre_res[i].start_point) <= sqdist(
                head_before(pre_res, i, start),
                rem2[c].start_point,
            ));
        } else {
            assert(sqdist(old_pos, cv.start_point) <= sqdist(old_pos, rem2[c].start_point));
        }
    }
}

/// Orders chains by the travel-minimizing heuristic: starting from
/// `start`, repeatedly print the remaining chain whose start is nearest to
/// where the head stopped.  The result holds exactly the input chains, and
/// at every position no chain printed later would have been nearer.
pub fn order_chains(chains: Vec<MoveChain>, start: Point2) -> (r: Vec<MoveChain>)
    requires
        chains_bounded(chains_view(chains@)),
        pt_bounded(start),
    ensures
        chains_view(r@).to_multiset() == chains_view(chains@).to_multiset(),
        chains_bounded(chains_view(r@)),
        greedy_ordered(chains_view(r@), start),
{
    let ghost orig = chains_view(chains@);
    let ghost orig_m = orig.to_multiset();
    let mut remaining = chains;
    let mut result: Vec<MoveChain> = Vec::new();
    let mut pos: Point2 = start;
    proof {
        broadcast use vstd::seq_lib::group_to_multiset_ensures;

        let rm = chains_view(result@).to_multiset();
        assert(rm.len() == 0);
        vstd::multiset::lemma_multiset_empty_len::<MoveChainV>(rm);
        assert(chains_view(result@).to_multiset().add(chains_view(remaining@).to_multiset())
            =~= orig_m);
    }
    while remaining.len() > 0
        invariant
            pt_bounded(start),
            pt_bounded(pos),
            orig_m == orig.to_multiset(),
            chains_view(result@).to_multiset().add(chains_view(remaining@).to_multiset())
                == orig_m,
            chains_bounded(chains_view(remaining@)),
            chains_bounded(chains_view(result@)),
            pos == head_before(chains_view(result@), chains_view(result@).len() as int, start),
            greedy_ordered(chains_view(result@), start),
            forall|i: int, c: int|
                0 <= i < chains_view(result@).len() && 0 <= c < chains_view(remaining@).len()
                    ==> sqdist(
                    head_before(chains_view(result@), i, start),
                    (#[trigger] chains_view(result@)[i]).start_point,
                ) <= sqdist(
                    head_before(chains_view(result@), i, start),
                    (#[trigger] chains_view(remaining@)[c]).start_point,
                ),
        decreases remaining@.len(),
    {
        let mut best: usize = 0;
        proof {
            assert(chains_view(remaining@)[0] == remaining@[0]@);
        }
        let mut best_d: i128 = sqdist_exec(pos, remaining[0].start_point);
        let mut j: usize = 1;
        while j < remaining.len()
            invariant
                1 <= j <= remaining@.len(),
                (best as int) < j,
                chains_bounded(chains_view(remaining@)),
                pt_bounded(pos),
                best_d == sqdist(pos, chains_view(remaining@)[best as int].start_point),
                forall|c: int|
                    0 <= c < j ==> best_d <= sqdist(
                        pos,
                        (#[trigger] chains_view(remaining@)[c]).start_point,
                    ),
            decreases remaining@.len() - j,
        {
            proof {
                assert(chains_view(remaining@)[j as int] == remaining@[j as int]@);
            }
            let d = sqdist_exec(pos, remaining[j].start_point);
            if d < best_d {
                best = j;
                best_d = d;
            }
            j = j + 1;
        }
        let ghost pre_rem_vec = remaining@;
        let ghost pre_rem = chains_view(remaining@);
        let ghost pre_res_vec = result@;
        let ghost pre_res = chains_view(result@);
        let ghost old_pos = pos;
        let chosen = remaining.remove(best);
        let next_pos = chain_stop_exec(&chosen);
        proof {
            lemma_chains_view_remove(pre_rem_vec, best as int);
            lemma_chains_view_push(pre_res_vec, chosen);
        }
        result.push(chosen);
        pos = next_pos;
        proof {
            lemma_order_step(
                start,
                old_pos,
                pre_res,
                pre_rem,
                best as int,
                chains_view(result@),
                chains_view(remaining@),
                pos,
                orig_m,
            );
        }
    }
    proof {
        broadcast use vstd::seq_lib::group_to_multiset_ensures;

        let rm = chains_view(remaining@).to_multiset();
        assert(rm.len() == 0);
        vstd::multiset::lemma_multiset_empty_len::<MoveChainV>(rm);
        assert(chains_view(result@).to_multiset().add(Multiset::<MoveChainV>::empty())
            =~= chains_view(result@).to_multiset());
    }
    result
}

} // verus!
