//! Stable descending order: ranking items by a two-part key, larger keys
//! first, earlier items first among equal keys.

use vstd::prelude::*;

verus! {

/// A key to rank by: first by `major`, then by `minor`.
#[derive(Clone, Copy, Debug, PartialEq, Eq, Structural)]
pub struct SortKey {
    pub major: u64,
    pub minor: u64,
}

/// Whether key `a` is larger than key `b`.
pub open spec fn key_above(a: SortKey, b: SortKey) -> bool {
    a.major > b.major || (a.major == b.major && a.minor > b.minor)
}

/// Whether item `i` comes before item `j` in the ranking: its key is larger,
/// or the keys are equal and `i` is the earlier item.
pub open spec fn ranks_before(keys: Seq<SortKey>, i: int, j: int) -> bool {
    key_above(keys[i], keys[j]) || (keys[i] == keys[j] && i < j)
}

/// Whether item `k` occurs in `perm`.
pub open spec fn occurs(perm: Seq<usize>, k: int) -> bool {
    exists|a: int| 0 <= a < perm.len() && #[trigger] perm[a] == k
}

/// Whether `perm` lists every item of `keys` once, in ranking order. There
/// is exactly one such list for given keys.
pub open spec fn is_ranking(keys: Seq<SortKey>, perm: Seq<usize>) -> bool {
    &&& perm.len() == keys.len()
    &&& forall|a: int| 0 <= a < perm.len() ==> (#[trigger] perm[a]) < keys.len()
    &&& forall|a: int, b: int|
        0 <= a < b < perm.len() ==> ranks_before(keys, #[trigger] perm[a] as int, #[trigger] perm[b] as int)
    &&& forall|k: int| 0 <= k < keys.len() ==> #[trigger] occurs(perm, k)
}

/// Two rankings of the same keys agree up to any position, so they are the
/// same list.
pub proof fn lemma_ranking_unique(keys: Seq<SortKey>, p: Seq<usize>, q: Seq<usize>)
    requires
        is_ranking(keys, p),
        is_ranking(keys, q),
    ensures
        p == q,
{
    assert forall|a: int| 0 <= a < p.len() implies p[a] == q[a] by {
        lemma_same_at(keys, p, q, a);
    }
    assert(p =~= q);
}

proof fn lemma_same_at(keys: Seq<SortKey>, p: Seq<usize>, q: Seq<usize>, a: int)
    requires
        is_ranking(keys, p),
        is_ranking(keys, q),
        0 <= a < p.len(),
    ensures
        p[a] == q[a],
    decreases a,
{
    // both lists agree before `a`
    assert forall|c: int| 0 <= c < a implies p[c] == q[c] by {
        lemma_same_at(keys, p, q, c);
    }
    let x = p[a] as int;
    let y = q[a] as int;
    assert(occurs(q, x));
    assert(occurs(p, y));
    let bq = choose|b: int| 0 <= b < q.len() && #[trigger] q[b] == x;
    let bp = choose|b: int| 0 <= b < p.len() && #[trigger] p[b] == y;
    if bq < a {
        // then x == q[bq] == p[bq], which comes strictly before p[a] == x
        assert(ranks_before(keys, p[bq] as int, p[a] as int));
    }
    if bp < a {
        assert(ranks_before(keys, q[bp] as int, q[a] as int));
    }
    if bq > a {
        assert(ranks_before(keys, q[a] as int, q[bq] as int));
    }
    if bp > a {
        assert(ranks_before(keys, p[a] as int, p[bp] as int));
    }
}

/// Tests whether key `a` is larger than key `b`.
pub fn is_above(a: SortKey, b: SortKey) -> (r: bool)
    ensures
        r == key_above(a, b),
{
    a.major > b.major || (a.major == b.major && a.minor > b.minor)
}

/// The items of `keys` in ranking order: larger keys first, and among equal
/// keys the earlier item first.
pub fn rank_desc(keys: &Vec<SortKey>) -> (perm: Vec<usize>)
    ensures
        is_ranking(keys@, perm@),
{
    let mut out: Vec<usize> = Vec::new();
    let mut i: usize = 0;
    while i < keys.len()
        invariant
            i <= keys.len(),
            is_ranking(keys@.take(i as int), out@),
        decreases keys.len() - i,
    {
        let ghost prev = out@;
        let ghost upto = keys@.take(i as int);
        let ghost now = keys@.take(i + 1);
        out.push(i);
        let mut j: usize = i;
        while j > 0 && is_above(keys[i], keys[out[j - 1]])
            invariant
                j <= i,
                i < keys.len(),
                prev.len() == i,
                is_ranking(upto, prev),
                upto == keys@.take(i as int),
                now == keys@.take(i + 1),
                out@ == prev.take(j as int).push(i) + prev.skip(j as int),
                forall|b: int| j <= b < i ==> key_above(keys[i as int], keys[#[trigger] prev[b] as int]),
            decreases j,
        {
            let moved = out[j - 1];
            out.set(j, moved);
            out.set(j - 1, i);
            j -= 1;
            assert(out@ =~= prev.take(j as int).push(i) + prev.skip(j as int));
        }
        proof {
            let cur = out@;
            assert(cur.len() == i + 1);
            assert forall|a: int| 0 <= a < cur.len() implies (#[trigger] cur[a]) < now.len() by {
                if a < j {
                    assert(cur[a] == prev[a]);
                } else if a > j {
                    assert(cur[a] == prev[a - 1]);
                }
            }
            assert forall|a: int, b: int| 0 <= a < b < cur.len() implies ranks_before(
                now,
                #[trigger] cur[a] as int,
                #[trigger] cur[b] as int,
            ) by {
                if b < j {
                    assert(cur[a] == prev[a] && cur[b] == prev[b]);
                    assert(ranks_before(upto, prev[a] as int, prev[b] as int));
                } else if b == j {
                    assert(cur[a] == prev[a]);
                    assert(prev[a] < i);
                    // the scan stopped at `j`, or everything before was kept
                    assert(ranks_before(upto, prev[a] as int, prev[j - 1] as int) || a == j - 1);
                } else if a == j {
                    assert(cur[b] == prev[b - 1]);
                } else if a < j {
                    assert(cur[a] == prev[a] && cur[b] == prev[b - 1]);
                    assert(ranks_before(upto, prev[a] as int, prev[b - 1] as int));
                } else {
                    assert(cur[a] == prev[a - 1] && cur[b] == prev[b - 1]);
                    assert(ranks_before(upto, prev[a - 1] as int, prev[b - 1] as int));
                }
            }
            assert forall|k: int| 0 <= k < now.len() implies #[trigger] occurs(cur, k) by {
                if k == i {
                    assert(cur[j as int] == k);
                } else {
                    assert(occurs(prev, k));
                    let a0 = choose|a: int| 0 <= a < prev.len() && #[trigger] prev[a] == k;
                    if a0 < j {
                        assert(cur[a0] == k);
                    } else {
                        assert(cur[a0 + 1] == k);
                    }
                }
            }
        }
        i += 1;
    }
    assert(keys@.take(keys.len() as int) =~= keys@);
    out
}

} // verus!
