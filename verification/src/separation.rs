//! The separation updater: pairwise local repulsion, to keep same-faction
//! agents from clumping.
//!
//! Read-then-write, like the conversion updater: the read pass looks at each
//! agent's two nearest neighbors in the settled spatial index (itself
//! included, at distance zero) and records a repulsion direction when the
//! genuine neighbor shares its non-neutral faction and stands too close; the
//! apply pass then nudges every recorded agent's acceleration away.

use vstd::prelude::*;
use crate::agent::{Agent, AgentStore};
use crate::config::{ACC_LIMIT, REPULSION_DIV, REPULSION_THRESHOLD};
use crate::spatial::{knn_ids, result_ids, SpatialIndex};
use crate::vec2::{
    clamp1, dist_sq, div_trunc, in_box, spec_scale_to_len, v2_sub, SCALE, V2,
};

verus! {

/// Whether the agent at `j` repels the agent at `i`: another agent, sharing
/// `i`'s non-neutral faction, strictly closer than the repulsion threshold
/// (positions read from the settled snapshot `pts`).
pub open spec fn repels(agents: Seq<Agent>, pts: Seq<V2>, i: int, j: int) -> bool {
    &&& j != i
    &&& 0 <= j < agents.len()
    &&& agents[j].faction != -1
    &&& agents[j].faction == agents[i].faction
    &&& dist_sq(pts[j], pts[i]) < REPULSION_THRESHOLD as int * REPULSION_THRESHOLD as int
}

/// The recorded repulsion among the listed neighbor ids: the unit vector
/// from `i` toward the last listed id that repels it, if any.
pub open spec fn repulse_choice(agents: Seq<Agent>, pts: Seq<V2>, i: int, ids: Seq<int>) -> Option<
    V2,
>
    decreases ids.len(),
{
    if ids.len() == 0 {
        Option::None
    } else {
        let j = ids.last();
        if repels(agents, pts, i, j) {
            Option::Some(spec_scale_to_len(v2_sub(pts[j], pts[i]), SCALE as int))
        } else {
            repulse_choice(agents, pts, i, ids.drop_last())
        }
    }
}

/// The read pass's decision for agent `i`, over its two nearest neighbors.
pub open spec fn repulsion_of(agents: Seq<Agent>, pts: Seq<V2>, i: int) -> Option<V2> {
    repulse_choice(agents, pts, i, knn_ids(pts, pts[i], 2))
}

/// The read pass: for every agent, its recorded repulsion direction.
pub fn decide_separation(store: &AgentStore, index: &SpatialIndex) -> (ds: Vec<Option<V2>>)
    requires
        store.wf(),
        index.wf(),
        index.pts@.len() == store.agents@.len(),
    ensures
        ds@.len() == store.agents@.len(),
        forall|i: int|
            0 <= i < ds@.len() ==> ds@[i] == repulsion_of(store.agents@, index.pts@, i),
        forall|i: int|
            0 <= i < ds@.len() ==> ((#[trigger] ds@[i]) matches Option::Some(dir) ==> in_box(
                dir,
                SCALE as int,
            )),
{
    let n = store.agents.len();
    let mut ds: Vec<Option<V2>> = Vec::new();
    let mut i: usize = 0;
    while i < n
        invariant
            i <= n,
            n == store.agents@.len(),
            store.wf(),
            index.wf(),
            index.pts@.len() == n,
            ds@.len() == i,
            forall|q: int|
                0 <= q < i ==> ds@[q] == repulsion_of(store.agents@, index.pts@, q),
            forall|q: int|
                0 <= q < i ==> ((#[trigger] ds@[q]) matches Option::Some(dir) ==> in_box(
                    dir,
                    SCALE as int,
                )),
        decreases n - i,
    {
        let center = index.pts[i];
        let nn = index.query_k_nearest(center, 2);
        let ghost ids = knn_ids(index.pts@, center, 2);
        let mut choice: Option<V2> = Option::None;
        let mut m: usize = 0;
        proof {
            assert(ids.take(0) =~= Seq::<int>::empty());
        }
        while m < nn.len()
            invariant
                m <= nn@.len(),
                n == store.agents@.len(),
                store.wf(),
                index.wf(),
                index.pts@.len() == n,
                i < n,
                center == index.pts@[i as int],
                ids == knn_ids(index.pts@, center, 2),
                result_ids(nn@) == ids,
                forall|q: int|
                    0 <= q < nn@.len() ==> 0 <= (#[trigger] nn@[q]).0 < n && nn@[q].1
                        == index.pts@[nn@[q].0 as int],
                choice == repulse_choice(store.agents@, index.pts@, i as int, ids.take(m as int)),
                choice matches Option::Some(dir) ==> in_box(dir, SCALE as int),
            decreases nn@.len() - m,
        {
            let (j, jpos) = nn[m];
            proof {
                assert(ids.take(m + 1).drop_last() =~= ids.take(m as int));
                assert(ids.take(m + 1).last() == j as int);
            }
            if j != i && store.agents[j].faction != -1 && store.agents[j].faction
                == store.agents[i].faction {
                let d = jpos.dist_sq(center);
                proof {
                    assert(REPULSION_THRESHOLD * REPULSION_THRESHOLD
                        == REPULSION_THRESHOLD as int * REPULSION_THRESHOLD as int);
                }
                if d < REPULSION_THRESHOLD * REPULSION_THRESHOLD {
                    let dir = jpos.sub(center).scale_to_len(SCALE);
                    choice = Option::Some(dir);
                }
            }
            m = m + 1;
        }
        proof {
            assert(ids.take(nn@.len() as int) =~= ids);
        }
        ds.push(choice);
        i = i + 1;
    }
    ds
}

/// Acceleration after one repulsion step away from direction `dir`.
pub open spec fn repulse_acc(a: Agent, dir: V2) -> V2 {
    V2 {
        x: clamp1(a.acc.x - div_trunc(dir.x as int, REPULSION_DIV as int), ACC_LIMIT as int)
            as i64,
        y: clamp1(a.acc.y - div_trunc(dir.y as int, REPULSION_DIV as int), ACC_LIMIT as int)
            as i64,
    }
}

/// One apply step: an agent with a recorded direction is nudged away from
/// it; everyone else is left alone.
pub open spec fn repulsed_agent(a: Agent, d: Option<V2>) -> Agent {
    match d {
        Option::None => a,
        Option::Some(dir) => Agent { acc: repulse_acc(a, dir), ..a },
    }
}

/// The apply pass: nudges every recorded agent's acceleration away from its
/// recorded neighbor.
pub fn apply_separation(store: &mut AgentStore, ds: &Vec<Option<V2>>)
    requires
        old(store).wf(),
        ds@.len() == old(store).agents@.len(),
        forall|i: int|
            0 <= i < ds@.len() ==> ((#[trigger] ds@[i]) matches Option::Some(dir) ==> in_box(
                dir,
                SCALE as int,
            )),
    ensures
        final(store).wf(),
        final(store).agents@.len() == old(store).agents@.len(),
        forall|i: int|
            0 <= i < final(store).agents@.len() ==> final(store).agents@[i] == repulsed_agent(
                #[trigger] old(store).agents@[i],
                ds@[i],
            ),
{
    let n = store.agents.len();
    let mut i: usize = 0;
    while i < n
        invariant
            i <= n,
            n == store.agents@.len(),
            old(store).agents@.len() == n,
            old(store).wf(),
            ds@.len() == n,
            forall|q: int|
                0 <= q < ds@.len() ==> ((#[trigger] ds@[q]) matches Option::Some(dir) ==> in_box(
                    dir,
                    SCALE as int,
                )),
            forall|m: int| i <= m < n ==> store.agents@[m] == old(store).agents@[m],
            forall|m: int|
                0 <= m < i ==> store.agents@[m] == repulsed_agent(
                    #[trigger] old(store).agents@[m],
                    ds@[m],
                ),
            forall|m: int| 0 <= m < i ==> crate::agent::agent_wf(#[trigger] store.agents@[m]),
        decreases n - i,
    {
        match ds[i] {
            Option::Some(dir) => {
                let a = store.agents[i];
                assert(a == old(store).agents@[i as int]);
                assert(crate::agent::agent_wf(a));
                let ax = a.acc.x - crate::vec2::div_comp(dir.x, REPULSION_DIV);
                let ay = a.acc.y - crate::vec2::div_comp(dir.y, REPULSION_DIV);
                let acc = V2 { x: ax, y: ay }.clamp_box(ACC_LIMIT);
                store.agents.set(i, Agent { acc, ..a });
            },
            Option::None => {},
        }
        i = i + 1;
    }
}

} // verus!
