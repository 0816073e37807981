//! Which chats a chart of the direct messages shows: the ones with the most
//! messages, greatest first.

use vstd::prelude::*;
use crate::stats::{entry_views, CategoryStats};

verus! {

/// The number of chats that a chart shows at most.
pub const CHART_ROWS: usize = 10;

/// Whether entry `i` stands before entry `j` in a chart: it has the greater
/// figure, or the same figure and the earlier place among the entries.
pub open spec fn ranks_before(entries: Seq<(Seq<char>, nat)>, i: int, j: int) -> bool {
    entries[i].1 > entries[j].1 || (entries[i].1 == entries[j].1 && i < j)
}

/// Whether `picks` names the places of the entries that lead a chart of at
/// most `limit` rows, in the order of the chart: as many as there is room
/// for, each standing before every later pick and before every entry that
/// is left out.
pub open spec fn is_ranking(entries: Seq<(Seq<char>, nat)>, picks: Seq<int>, limit: nat) -> bool {
    &&& picks.len() == if limit <= entries.len() {
        limit
    } else {
        entries.len()
    }
    &&& forall|k: int| 0 <= k < picks.len() ==> 0 <= #[trigger] picks[k] < entries.len()
    &&& forall|a: int, b: int|
        0 <= a < b < picks.len() ==> ranks_before(entries, #[trigger] picks[a], #[trigger] picks[b])
    &&& forall|k: int, u: int|
        0 <= k < picks.len() && 0 <= u < entries.len() && !picks.contains(u) ==> #[trigger] ranks_before(
            entries,
            picks[k],
            u,
        )
}

/// The places as integers.
pub open spec fn places(picks: Seq<usize>) -> Seq<int> {
    picks.map_values(|place: usize| place as int)
}

/// Picks the entries that lead a chart of at most `limit` rows, and gives
/// their places among the entries in the order of the chart.
pub fn top_chats(dms: &CategoryStats, limit: usize) -> (picks: Vec<usize>)
    ensures
        is_ranking(dms@, places(picks@), limit as nat),
{
    let entries = dms.entries();
    let ghost all = dms@;
    let count = entries.len();
    let rows = if limit <= count {
        limit
    } else {
        count
    };
    let mut taken: Vec<bool> = Vec::new();
    while taken.len() < count
        invariant
            taken.len() <= count,
            forall|u: int| 0 <= u < taken.len() ==> !#[trigger] taken[u],
        decreases count - taken.len(),
    {
        taken.push(false);
    }
    let mut picks: Vec<usize> = Vec::new();
    while picks.len() < rows
        invariant
            count == entries.len(),
            all == entry_views(entries@),
            taken.len() == count,
            rows <= count,
            picks.len() <= rows,
            is_ranking(all, places(picks@), picks.len() as nat),
            forall|u: int| 0 <= u < count ==> (#[trigger] taken[u] <==> places(picks@).contains(u)),
        decreases rows - picks.len(),
    {
        let ghost chosen = places(picks@);
        let mut best: usize = 0;
        let mut found = false;
        let mut u: usize = 0;
        while u < count
            invariant
                u <= count,
                count == entries.len(),
                all == entry_views(entries@),
                taken.len() == count,
                found ==> best < u && !taken[best as int],
                found ==> forall|v: int|
                    0 <= v < u && !taken[v] && v != best ==> #[trigger] ranks_before(
                        all,
                        best as int,
                        v,
                    ),
                !found ==> forall|v: int| 0 <= v < u ==> #[trigger] taken[v],
            decreases count - u,
        {
            if !taken[u] {
                if !found || entries[u].1 > entries[best].1 {
                    proof {
                        if found {
                            assert forall|v: int|
                                0 <= v < u + 1 && !taken[v] && v != u implies #[trigger] ranks_before(
                                all,
                                u as int,
                                v,
                            ) by {
                                if v != best {
                                    assert(ranks_before(all, best as int, v));
                                }
                            }
                        }
                    }
                    best = u;
                    found = true;
                }
            }
            u += 1;
        }
        proof {
            // Fewer are picked than there are entries, so one was left.
            if !found {
                assert forall|w: int| 0 <= w < count implies chosen.contains(w) by {
                    assert(taken[w]);
                }
                lemma_all_taken(chosen, count as int);
            }
        }
        assert(found);
        taken.set(best, true);
        picks.push(best);
        proof {
            let longer = places(picks@);
            assert(longer == chosen.push(best as int));
            assert(!chosen.contains(best as int));
            assert forall|w: int| 0 <= w < count implies (#[trigger] taken[w] <==> longer.contains(
                w,
            )) by {
                if w == best {
                    assert(longer[longer.len() - 1] == w);
                } else if chosen.contains(w) {
                    let k = choose|k: int| 0 <= k < chosen.len() && chosen[k] == w;
                    assert(longer[k] == w);
                } else if longer.contains(w) {
                    let k = choose|k: int| 0 <= k < longer.len() && longer[k] == w;
                    assert(k < chosen.len());
                    assert(chosen[k] == w);
                }
            }
            assert forall|a: int, b: int| 0 <= a < b < longer.len() implies ranks_before(
                all,
                #[trigger] longer[a],
                #[trigger] longer[b],
            ) by {
                if b == longer.len() - 1 {
                    assert(longer[a] == chosen[a]);
                    assert(ranks_before(all, chosen[a], best as int));
                } else {
                    assert(longer[a] == chosen[a] && longer[b] == chosen[b]);
                }
            }
            assert forall|k: int, w: int|
                0 <= k < longer.len() && 0 <= w < count && !longer.contains(
                    w,
                ) implies #[trigger] ranks_before(all, longer[k], w) by {
                assert(!chosen.contains(w)) by {
                    if chosen.contains(w) {
                        let m = choose|m: int| 0 <= m < chosen.len() && chosen[m] == w;
                        assert(longer[m] == w);
                    }
                }
                assert(w != best) by {
                    assert(longer[longer.len() - 1] == best);
                }
                if k == longer.len() - 1 {
                    assert(!taken[w] || w == best);
                    assert(ranks_before(all, best as int, w));
                } else {
                    assert(longer[k] == chosen[k]);
                    assert(ranks_before(all, chosen[k], w));
                }
            }
        }
    }
    picks
}

/// Two rankings of the same entries agree up to any row.
proof fn lemma_rankings_agree(
    entries: Seq<(Seq<char>, nat)>,
    one: Seq<int>,
    other: Seq<int>,
    limit: nat,
    row: int,
)
    requires
        is_ranking(entries, one, limit),
        is_ranking(entries, other, limit),
        0 <= row < one.len(),
    ensures
        one[row] == other[row],
    decreases row,
{
    if row > 0 {
        lemma_rankings_agree(entries, one, other, limit, row - 1);
    }
    assert forall|j: int| 0 <= j < row implies one[j] == other[j] by {
        lemma_rankings_agree(entries, one, other, limit, j);
    }
    let a = one[row];
    let b = other[row];
    if a != b {
        if ranks_before(entries, a, b) {
            lemma_not_behind(entries, other, one, limit, row);
        } else {
            lemma_not_behind(entries, one, other, limit, row);
        }
    }
}

/// Where two rankings agree above a row, what the second shows in that row
/// does not stand before what the first shows there, unless it is the same.
proof fn lemma_not_behind(
    entries: Seq<(Seq<char>, nat)>,
    one: Seq<int>,
    other: Seq<int>,
    limit: nat,
    row: int,
)
    requires
        is_ranking(entries, one, limit),
        is_ranking(entries, other, limit),
        0 <= row < one.len(),
        forall|j: int| 0 <= j < row ==> one[j] == other[j],
        one[row] != other[row],
    ensures
        !ranks_before(entries, other[row], one[row]),
{
    let a = one[row];
    let b = other[row];
    if one.contains(b) {
        let m = choose|m: int| 0 <= m < one.len() && one[m] == b;
        if m < row {
            assert(other[m] == b);
            assert(ranks_before(entries, other[m], other[row]));
        } else {
            assert(ranks_before(entries, one[row], one[m]));
        }
    } else {
        assert(ranks_before(entries, one[row], b));
    }
}

/// There is one ranking only of given entries for a given number of rows.
pub proof fn lemma_ranking_unique(
    entries: Seq<(Seq<char>, nat)>,
    one: Seq<int>,
    other: Seq<int>,
    limit: nat,
)
    requires
        is_ranking(entries, one, limit),
        is_ranking(entries, other, limit),
    ensures
        one == other,
{
    assert forall|row: int| 0 <= row < one.len() implies one[row] == other[row] by {
        lemma_rankings_agree(entries, one, other, limit, row);
    }
    assert(one =~= other);
}

/// Places that are all different and all below `count` are no more than
/// `count`; so where every place below `count` is picked, at least `count`
/// are picked.
proof fn lemma_all_taken(chosen: Seq<int>, count: int)
    requires
        forall|u: int| 0 <= u < count ==> chosen.contains(u),
        0 <= count,
    ensures
        chosen.len() >= count,
    decreases count,
{
    if count > 0 {
        let last = count - 1;
        assert(chosen.contains(last));
        let k = choose|k: int| 0 <= k < chosen.len() && chosen[k] == last;
        let rest = chosen.remove(k);
        assert forall|u: int| 0 <= u < count - 1 implies rest.contains(u) by {
            assert(chosen.contains(u));
            let m = choose|m: int| 0 <= m < chosen.len() && chosen[m] == u;
            if m < k {
                assert(rest[m] == u);
            } else {
                assert(m > k);
                assert(rest[m - 1] == u);
            }
        }
        lemma_all_taken(rest, count - 1);
    }
}

} // verus!
