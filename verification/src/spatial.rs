//! The spatial index: a nearest-neighbor view over all agent positions,
//! rebuilt once per tick and immutable for the rest of it.
//!
//! Entry `j` of the index is agent `j`'s position, so agent ids are index
//! positions.  `query_radius` returns every agent within (and exactly at) a
//! given distance, in insertion order; `query_k_nearest` returns the `k`
//! nearest agents, nearest first, ties broken by insertion order, and
//! includes the querying agent itself when it qualifies.

use vstd::prelude::*;
use crate::agent::AgentStore;
use crate::config::COORD_LIMIT;
use crate::vec2::{dist_sq, in_box, V2};

verus! {

/// The ids among `0..n` whose position lies within squared distance `rsq`
/// of `c`, in increasing order.
pub open spec fn radius_ids(pts: Seq<V2>, c: V2, rsq: int, n: int) -> Seq<int>
    decreases n,
{
    if n <= 0 {
        Seq::empty()
    } else {
        let rest = radius_ids(pts, c, rsq, n - 1);
        if dist_sq(c, pts[n - 1]) <= rsq {
            rest.push(n - 1)
        } else {
            rest
        }
    }
}

/// The id among `0..n` not in `taken` whose position is nearest to `c`
/// (earliest id on ties), or `-1` if every id is taken.
pub open spec fn nearest_untaken(pts: Seq<V2>, c: V2, taken: Seq<int>, n: int) -> int
    decreases n,
{
    if n <= 0 {
        -1
    } else {
        let prev = nearest_untaken(pts, c, taken, n - 1);
        let j = n - 1;
        if taken.contains(j) {
            prev
        } else if prev == -1 {
            j
        } else if dist_sq(c, pts[j]) < dist_sq(c, pts[prev]) {
            j
        } else {
            prev
        }
    }
}

/// The `k` nearest ids to `c`, nearest first, ties broken by insertion
/// order: `k` rounds of selecting the nearest not yet selected id.
pub open spec fn knn_ids(pts: Seq<V2>, c: V2, k: int) -> Seq<int>
    decreases k,
{
    if k <= 0 {
        Seq::empty()
    } else {
        let prev = knn_ids(pts, c, k - 1);
        let j = nearest_untaken(pts, c, prev, pts.len() as int);
        if j == -1 {
            prev
        } else {
            prev.push(j)
        }
    }
}

/// What one selection round returns: nothing when every id is taken, else
/// an untaken id no farther than any untaken id (and the earliest id at its
/// distance).
proof fn lemma_nearest_untaken_min(pts: Seq<V2>, c: V2, taken: Seq<int>, n: int)
    requires
        n <= pts.len(),
    ensures
        ({
            let j = nearest_untaken(pts, c, taken, n);
            &&& (j == -1 ==> forall|q: int| 0 <= q < n ==> taken.contains(q))
            &&& (j != -1 ==> 0 <= j < n && !taken.contains(j) && forall|q: int|
                0 <= q < n && !(#[trigger] taken.contains(q)) ==> dist_sq(c, pts[j]) < dist_sq(
                    c,
                    pts[q],
                ) || (dist_sq(c, pts[j]) == dist_sq(c, pts[q]) && j <= q))
        }),
    decreases n,
{
    if n > 0 {
        lemma_nearest_untaken_min(pts, c, taken, n - 1);
    }
}

/// Every selection round either grows the result by one or has exhausted
/// the ids.
proof fn lemma_knn_len(pts: Seq<V2>, c: V2, k: int)
    requires
        k >= 0,
    ensures
        knn_ids(pts, c, k).len() <= k,
        knn_ids(pts, c, k).len() == k || nearest_untaken(
            pts,
            c,
            knn_ids(pts, c, k),
            pts.len() as int,
        ) == -1,
    decreases k,
{
    if k > 0 {
        lemma_knn_len(pts, c, k - 1);
        if nearest_untaken(pts, c, knn_ids(pts, c, k - 1), pts.len() as int) == -1 {
            assert(knn_ids(pts, c, k) == knn_ids(pts, c, k - 1));
        }
    }
}

/// Earlier rounds' picks are a prefix of later rounds'.
proof fn lemma_knn_prefix(pts: Seq<V2>, c: V2, a: int, k: int)
    requires
        0 <= a <= k,
    ensures
        knn_ids(pts, c, a).len() <= knn_ids(pts, c, k).len(),
        forall|m: int|
            0 <= m < knn_ids(pts, c, a).len() ==> knn_ids(pts, c, a)[m] == knn_ids(pts, c, k)[m],
    decreases k - a,
{
    if a < k {
        lemma_knn_prefix(pts, c, a, k - 1);
    }
}

/// The query's documented meaning, proved of the selection spec: the
/// result lists pairwise distinct valid ids, nearest first (ties by
/// insertion order), and no listed id is farther than an unlisted one.
pub proof fn lemma_knn_ids_nearest_first(pts: Seq<V2>, c: V2, k: int)
    requires
        k >= 0,
    ensures
        ({
            let s = knn_ids(pts, c, k);
            &&& s.len() <= k
            &&& (forall|a: int| 0 <= a < s.len() ==> 0 <= #[trigger] s[a] < pts.len())
            &&& (forall|a: int, b: int| 0 <= a < b < s.len() ==> #[trigger] s[a] != #[trigger] s[b])
            &&& (forall|a: int, b: int|
                0 <= a < b < s.len() ==> dist_sq(c, pts[#[trigger] s[a]]) < dist_sq(
                    c,
                    pts[#[trigger] s[b]],
                ) || (dist_sq(c, pts[s[a]]) == dist_sq(c, pts[s[b]]) && s[a] < s[b]))
            &&& (forall|q: int, a: int|
                0 <= q < pts.len() && !(#[trigger] s.contains(q)) && 0 <= a < s.len() ==> dist_sq(
                    c,
                    pts[#[trigger] s[a]],
                ) <= dist_sq(c, pts[q]))
        }),
    decreases k,
{
    if k > 0 {
        lemma_knn_ids_nearest_first(pts, c, k - 1);
        let n = pts.len() as int;
        let prev = knn_ids(pts, c, k - 1);
        let j = nearest_untaken(pts, c, prev, n);
        lemma_nearest_untaken_min(pts, c, prev, n);
        if j != -1 {
            let s = prev.push(j);
            assert(prev.len() == k - 1) by {
                lemma_knn_len(pts, c, k - 1);
            }
            assert(forall|m: int| 0 <= m < prev.len() ==> prev[m] == s[m]);
            // each earlier pick was the nearest untaken of its round, and the
            // new pick was still untaken then
            assert forall|a: int|
                0 <= a < k - 1 implies dist_sq(c, pts[s[a]]) < dist_sq(c, pts[j as int]) || (
            dist_sq(c, pts[s[a]]) == dist_sq(c, pts[j as int]) && s[a] < j) by {
                let sa = knn_ids(pts, c, a);
                let ja = nearest_untaken(pts, c, sa, n);
                assert(sa.len() == a) by {
                    lemma_knn_len(pts, c, a);
                    if nearest_untaken(pts, c, sa, n) == -1 {
                        lemma_knn_saturated(pts, c, a, k - 1);
                    }
                }
                assert(ja != -1) by {
                    if ja == -1 {
                        lemma_knn_saturated(pts, c, a, k - 1);
                    }
                }
                assert(knn_ids(pts, c, a + 1) == sa.push(ja));
                assert(s[a] == ja) by {
                    lemma_knn_prefix(pts, c, a + 1, k - 1);
                    assert(knn_ids(pts, c, a + 1)[a] == prev[a]);
                }
                lemma_nearest_untaken_min(pts, c, sa, n);
                assert(!sa.contains(j as int)) by {
                    lemma_knn_prefix(pts, c, a, k - 1);
                    if sa.contains(j as int) {
                        let m = choose|m: int| 0 <= m < sa.len() && sa[m] == j;
                        assert(prev[m] == j);
                        assert(prev.contains(j as int));
                    }
                }
                assert(ja != j) by {
                    assert(prev.contains(ja));
                }
            }
            // an unlisted id was untaken in every round, the last included
            assert forall|q: int, a: int|
                0 <= q < pts.len() && !(#[trigger] s.contains(q)) && 0 <= a < s.len() implies dist_sq(
                c,
                pts[#[trigger] s[a]],
            ) <= dist_sq(c, pts[q]) by {
                assert(!prev.contains(q)) by {
                    if prev.contains(q) {
                        let m = choose|m: int| 0 <= m < prev.len() && prev[m] == q;
                        assert(s[m] == q);
                        assert(s.contains(q));
                    }
                }
            }
        }
    }
}

/// Once a selection round finds nothing untaken, later rounds add nothing.
proof fn lemma_knn_saturated(pts: Seq<V2>, c: V2, round: int, k: int)
    requires
        round <= k,
        nearest_untaken(pts, c, knn_ids(pts, c, round), pts.len() as int) == -1,
    ensures
        knn_ids(pts, c, k) == knn_ids(pts, c, round),
    decreases k - round,
{
    if round < k {
        assert(knn_ids(pts, c, round + 1) == knn_ids(pts, c, round));
        lemma_knn_saturated(pts, c, round + 1, k);
    }
}

/// The id column of a query result.
pub open spec fn result_ids(res: Seq<(usize, V2)>) -> Seq<int> {
    res.map_values(|p: (usize, V2)| p.0 as int)
}

/// A 2D nearest-neighbor structure over all agent positions.
pub struct SpatialIndex {
    pub pts: Vec<V2>,
}

impl SpatialIndex {
    /// Every indexed position lies inside the arena.
    pub open spec fn wf(self) -> bool {
        forall|j: int| 0 <= j < self.pts.len() ==> in_box(#[trigger] self.pts[j], COORD_LIMIT as int)
    }

    /// Replaces any prior contents with the store's current positions.
    pub fn rebuild(store: &AgentStore) -> (r: SpatialIndex)
        requires
            store.wf(),
        ensures
            r.wf(),
            r.pts@.len() == store.agents@.len(),
            forall|j: int| 0 <= j < store.agents@.len() ==> r.pts@[j] == store.agents@[j].pos,
    {
        let mut pts: Vec<V2> = Vec::new();
        let n = store.agents.len();
        let mut j: usize = 0;
        while j < n
            invariant
                j <= n,
                n == store.agents@.len(),
                store.wf(),
                pts@.len() == j,
                forall|m: int| 0 <= m < j ==> pts@[m] == store.agents@[m].pos,
            decreases n - j,
        {
            pts.push(store.agents[j].pos);
            j = j + 1;
        }
        SpatialIndex { pts }
    }

    /// All agents within distance `r` of `center` (agents exactly at
    /// distance `r` included), in insertion order, as (id, position) pairs.
    pub fn query_radius(&self, center: V2, r: i64) -> (res: Vec<(usize, V2)>)
        requires
            self.wf(),
            in_box(center, COORD_LIMIT as int),
            0 <= r <= 2_000_000_000,
        ensures
            result_ids(res@) == radius_ids(self.pts@, center, r * r, self.pts@.len() as int),
            forall|m: int|
                0 <= m < res@.len() ==> 0 <= (#[trigger] res@[m]).0 < self.pts@.len() && res@[m].1
                    == self.pts@[res@[m].0 as int],
    {
        proof {
            assert(0 <= r * r <= 4_000_000_000_000_000_000) by (nonlinear_arith)
                requires
                    0 <= r <= 2_000_000_000,
            ;
        }
        let rsq: i64 = r * r;
        let mut res: Vec<(usize, V2)> = Vec::new();
        let n = self.pts.len();
        let mut j: usize = 0;
        proof {
            assert(result_ids(res@) =~= radius_ids(self.pts@, center, rsq as int, 0));
        }
        while j < n
            invariant
                j <= n,
                n == self.pts@.len(),
                self.wf(),
                in_box(center, COORD_LIMIT as int),
                rsq == r * r,
                result_ids(res@) == radius_ids(self.pts@, center, rsq as int, j as int),
                forall|m: int|
                    0 <= m < res@.len() ==> 0 <= (#[trigger] res@[m]).0 < n && res@[m].1
                        == self.pts@[res@[m].0 as int],
            decreases n - j,
        {
            let p = self.pts[j];
            let d = center.dist_sq(p);
            if d <= rsq {
                res.push((j, p));
                proof {
                    assert(result_ids(res@) =~= result_ids(res@.drop_last()).push(j as int));
                }
            }
            j = j + 1;
        }
        res
    }

    /// The `k` nearest agents to `center`, nearest first, ties broken by
    /// insertion order, as (id, position) pairs.  The querying agent itself
    /// appears when it is among the `k` nearest to its own position.
    pub fn query_k_nearest(&self, center: V2, k: usize) -> (res: Vec<(usize, V2)>)
        requires
            self.wf(),
            in_box(center, COORD_LIMIT as int),
        ensures
            result_ids(res@) == knn_ids(self.pts@, center, k as int),
            forall|m: int|
                0 <= m < res@.len() ==> 0 <= (#[trigger] res@[m]).0 < self.pts@.len() && res@[m].1
                    == self.pts@[res@[m].0 as int],
    {
        let mut res: Vec<(usize, V2)> = Vec::new();
        let n = self.pts.len();
        let mut round: usize = 0;
        proof {
            assert(result_ids(res@) =~= knn_ids(self.pts@, center, 0));
        }
        while round < k
            invariant
                round <= k,
                n == self.pts@.len(),
                self.wf(),
                in_box(center, COORD_LIMIT as int),
                result_ids(res@) == knn_ids(self.pts@, center, round as int),
                forall|m: int|
                    0 <= m < res@.len() ==> 0 <= (#[trigger] res@[m]).0 < n && res@[m].1
                        == self.pts@[res@[m].0 as int],
            decreases k - round,
        {
            let ghost taken = result_ids(res@);
            let mut best: usize = 0;
            let mut best_d: i64 = 0;
            let mut found = false;
            let mut j: usize = 0;
            while j < n
                invariant
                    j <= n,
                    n == self.pts@.len(),
                    self.wf(),
                    in_box(center, COORD_LIMIT as int),
                    result_ids(res@) == taken,
                    forall|m: int|
                        0 <= m < res@.len() ==> 0 <= (#[trigger] res@[m]).0 < n && res@[m].1
                            == self.pts@[res@[m].0 as int],
                    !found ==> nearest_untaken(self.pts@, center, taken, j as int) == -1,
                    found ==> best < n && best == nearest_untaken(
                        self.pts@,
                        center,
                        taken,
                        j as int,
                    ) && best_d == dist_sq(center, self.pts@[best as int]),
                decreases n - j,
            {
                if !self.contains_id(&res, j) {
                    let d = center.dist_sq(self.pts[j]);
                    if !found {
                        found = true;
                        best = j;
                        best_d = d;
                    } else if d < best_d {
                        best = j;
                        best_d = d;
                    }
                }
                j = j + 1;
            }
            if !found {
                // every id is already in the result; further rounds add nothing
                proof {
                    lemma_knn_saturated(self.pts@, center, round as int, k as int);
                }
                return res;
            }
            res.push((best, self.pts[best]));
            proof {
                assert(result_ids(res@) =~= taken.push(best as int));
            }
            round = round + 1;
        }
        res
    }

    /// Whether id `j` already occurs in the partial result.
    fn contains_id(&self, res: &Vec<(usize, V2)>, j: usize) -> (r: bool)
        ensures
            r == result_ids(res@).contains(j as int),
    {
        let mut m: usize = 0;
        while m < res.len()
            invariant
                m <= res@.len(),
                forall|q: int| 0 <= q < m ==> (#[trigger] res@[q]).0 != j,
            decreases res@.len() - m,
        {
            if res[m].0 == j {
                proof {
                    assert(result_ids(res@)[m as int] == j as int);
                }
                return true;
            }
            m = m + 1;
        }
        proof {
            assert forall|q: int| 0 <= q < result_ids(res@).len() implies result_ids(res@)[q]
                != j as int by {
                assert(res@[q].0 != j);
            }
        }
        false
    }
}

} // verus!
