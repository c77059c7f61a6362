//! The conversion updater: majority-vote faction recruitment.
//!
//! Two phases, so every decision is computed from one consistent snapshot:
//! the read phase tallies, for every agent, the factions of its neighbors in
//! the spatial index (which holds the positions settled at the start of the
//! tick) and records the plurality faction, ties won by the lowest id; the
//! apply phase then walks the recorded decisions in order, converting
//! rank-and-file agents and demoting a leader whose faction has collapsed to
//! itself alone.

use vstd::prelude::*;
use crate::agent::{Agent, AgentKind, AgentStore};
use crate::config::{NEIGHBOR_THRESHOLD, NUM_FACTIONS};
use crate::registry::{
    count_faction, lemma_count_faction_le_len, lemma_count_faction_pos,
    lemma_count_faction_update, FactionRegistry,
};
use crate::spatial::{radius_ids, result_ids, SpatialIndex};
use crate::vec2::V2;

verus! {

/// Votes for faction `f` among the listed neighbor ids: the agents among
/// them, other than voter `i` itself, holding faction `f`.  The
/// unaffiliated pseudo-faction never collects votes because `f` ranges over
/// tracked factions only.
pub open spec fn count_votes(agents: Seq<Agent>, i: int, ids: Seq<int>, f: int) -> nat
    decreases ids.len(),
{
    if ids.len() == 0 {
        0
    } else {
        count_votes(agents, i, ids.drop_last(), f) + {
            let j = ids.last();
            if j != i && 0 <= j < agents.len() && agents[j].faction == f {
                1nat
            } else {
                0nat
            }
        }
    }
}

/// The ids within the vote radius of agent `i`'s settled position.
pub open spec fn neighbor_ids(pts: Seq<V2>, i: int) -> Seq<int> {
    radius_ids(
        pts,
        pts[i],
        NEIGHBOR_THRESHOLD as int * NEIGHBOR_THRESHOLD as int,
        pts.len() as int,
    )
}

/// Votes for faction `f` in agent `i`'s neighborhood.
pub open spec fn votes_for(agents: Seq<Agent>, pts: Seq<V2>, i: int, f: int) -> nat {
    count_votes(agents, i, neighbor_ids(pts, i), f)
}

/// The winning faction among ids `0 .. n`: the one with the most votes,
/// provided it got any, the lowest id winning ties.
pub open spec fn best_upto(agents: Seq<Agent>, pts: Seq<V2>, i: int, n: int) -> Option<i32>
    decreases n,
{
    if n <= 0 {
        Option::None
    } else {
        let prev = best_upto(agents, pts, i, n - 1);
        let f = n - 1;
        if votes_for(agents, pts, i, f) == 0 {
            prev
        } else {
            match prev {
                Option::None => Option::Some(f as i32),
                Option::Some(w) => if votes_for(agents, pts, i, f) > votes_for(
                    agents,
                    pts,
                    i,
                    w as int,
                ) {
                    Option::Some(f as i32)
                } else {
                    prev
                },
            }
        }
    }
}

/// The read phase's decision for agent `i`: the plurality faction of its
/// neighborhood, or nothing when no neighbor carries a faction.
pub open spec fn conversion_decision(agents: Seq<Agent>, pts: Seq<V2>, i: int) -> Option<i32> {
    best_upto(agents, pts, i, NUM_FACTIONS as int)
}

/// Counts the votes for faction `f` in a neighbor list handed back by the
/// spatial index.
fn count_votes_exec(store: &AgentStore, i: usize, neighbors: &Vec<(usize, V2)>, f: i32) -> (cnt:
    usize)
    requires
        forall|m: int|
            0 <= m < neighbors@.len() ==> 0 <= (#[trigger] neighbors@[m]).0
                < store.agents@.len(),
    ensures
        cnt == count_votes(store.agents@, i as int, result_ids(neighbors@), f as int),
{
    let ghost ids = result_ids(neighbors@);
    let mut cnt: usize = 0;
    let mut m: usize = 0;
    proof {
        assert(ids.take(0) =~= Seq::<int>::empty());
    }
    while m < neighbors.len()
        invariant
            m <= neighbors@.len(),
            ids == result_ids(neighbors@),
            cnt <= m,
            forall|q: int|
                0 <= q < neighbors@.len() ==> 0 <= (#[trigger] neighbors@[q]).0
                    < store.agents@.len(),
            cnt == count_votes(store.agents@, i as int, ids.take(m as int), f as int),
        decreases neighbors@.len() - m,
    {
        let j = neighbors[m].0;
        proof {
            assert(ids.take(m + 1).drop_last() =~= ids.take(m as int));
            assert(ids.take(m + 1).last() == j as int);
        }
        if j != i && store.agents[j].faction == f {
            cnt = cnt + 1;
        }
        m = m + 1;
    }
    proof {
        assert(ids.take(neighbors@.len() as int) =~= ids);
    }
    cnt
}

/// The read phase: for every agent, its recorded conversion decision.
/// Rerunning it on the same snapshot yields the same decisions.
pub fn decide_conversions(store: &AgentStore, index: &SpatialIndex) -> (ds: Vec<Option<i32>>)
    requires
        store.wf(),
        index.wf(),
        index.pts@.len() == store.agents@.len(),
    ensures
        ds@.len() == store.agents@.len(),
        forall|i: int|
            0 <= i < ds@.len() ==> ds@[i] == conversion_decision(
                store.agents@,
                index.pts@,
                i,
            ),
        forall|i: int|
            0 <= i < ds@.len() ==> ((#[trigger] ds@[i]) matches Option::Some(w) ==> 0 <= w
                < NUM_FACTIONS),
{
    let n = store.agents.len();
    let mut ds: Vec<Option<i32>> = Vec::new();
    let mut i: usize = 0;
    while i < n
        invariant
            i <= n,
            n == store.agents@.len(),
            store.wf(),
            index.wf(),
            index.pts@.len() == n,
            ds@.len() == i,
            forall|q: int|
                0 <= q < i ==> ds@[q] == conversion_decision(store.agents@, index.pts@, q),
            forall|q: int|
                0 <= q < i ==> ((#[trigger] ds@[q]) matches Option::Some(w) ==> 0 <= w
                    < NUM_FACTIONS),
        decreases n - i,
    {
        let center = index.pts[i];
        let neighbors = index.query_radius(center, NEIGHBOR_THRESHOLD);
        let ghost ids = neighbor_ids(index.pts@, i as int);
        proof {
            assert(result_ids(neighbors@) == ids);
        }
        let mut best: Option<i32> = Option::None;
        let mut best_votes: usize = 0;
        let mut f: i32 = 0;
        while f < NUM_FACTIONS
            invariant
                0 <= f <= NUM_FACTIONS,
                store.wf(),
                index.wf(),
                index.pts@.len() == n,
                n == store.agents@.len(),
                i < n,
                ids == neighbor_ids(index.pts@, i as int),
                result_ids(neighbors@) == ids,
                forall|m: int|
                    0 <= m < neighbors@.len() ==> 0 <= (#[trigger] neighbors@[m]).0 < n,
                best == best_upto(store.agents@, index.pts@, i as int, f as int),
                best matches Option::Some(w) ==> 0 <= w < f && best_votes == votes_for(
                    store.agents@,
                    index.pts@,
                    i as int,
                    w as int,
                ),
            decreases NUM_FACTIONS - f,
        {
            let v = count_votes_exec(store, i, &neighbors, f);
            if v > 0 {
                match best {
                    Option::None => {
                        best = Option::Some(f);
                        best_votes = v;
                    },
                    Option::Some(_) => {
                        if v > best_votes {
                            best = Option::Some(f);
                            best_votes = v;
                        }
                    },
                }
            }
            f = f + 1;
        }
        ds.push(best);
        i = i + 1;
    }
    ds
}

/// A demoted leader: loses Pawn status, keeps its faction.
pub open spec fn demoted(a: Agent) -> Agent {
    Agent { kind: AgentKind::Wanderer, ..a }
}

/// A converted agent: adopts the winning faction and starts at rest.
pub open spec fn converted(a: Agent, w: i32) -> Agent {
    Agent { faction: w, vel: V2::spec_zero(), ..a }
}

/// The evolving state of the apply phase.
pub struct ConvertState {
    pub agents: Seq<Agent>,
    pub counts: Seq<u32>,
    pub player_eliminated: bool,
}

/// One step of the apply phase, for agent `i` with recorded decision `d`.
/// A decision matching the agent's own faction changes nothing.  A leader
/// never adopts the winning faction: it is demoted when its faction's
/// current count says it is the last member (and the round is flagged lost
/// when that leader is the player's); otherwise it stands.  Any other agent
/// adopts the winning faction, starts at rest, and moves one unit of
/// population from its old count (none for the untracked unaffiliated
/// pseudo-faction) to the winner's.
pub open spec fn convert_step(st: ConvertState, i: int, d: Option<i32>) -> ConvertState {
    match d {
        Option::None => st,
        Option::Some(w) => {
            let a = st.agents[i];
            if w == a.faction {
                st
            } else if a.kind == AgentKind::Pawn {
                if st.counts[a.faction as int] <= 1 {
                    ConvertState {
                        agents: st.agents.update(i, demoted(a)),
                        counts: st.counts,
                        player_eliminated: st.player_eliminated || a.faction == 0,
                    }
                } else {
                    st
                }
            } else {
                let c1 = if a.faction >= 0 {
                    st.counts.update(a.faction as int, (st.counts[a.faction as int] - 1) as u32)
                } else {
                    st.counts
                };
                let c2 = c1.update(w as int, (c1[w as int] + 1) as u32);
                ConvertState {
                    agents: st.agents.update(i, converted(a, w)),
                    counts: c2,
                    player_eliminated: st.player_eliminated,
                }
            }
        },
    }
}

/// The apply phase folded over the decisions of agents `0 .. n`.
pub open spec fn apply_upto(
    agents0: Seq<Agent>,
    counts0: Seq<u32>,
    ds: Seq<Option<i32>>,
    n: int,
) -> ConvertState
    decreases n,
{
    if n <= 0 {
        ConvertState { agents: agents0, counts: counts0, player_eliminated: false }
    } else {
        convert_step(apply_upto(agents0, counts0, ds, n - 1), n - 1, ds[n - 1])
    }
}

/// Every recorded decision names a tracked faction.
pub open spec fn decisions_valid(ds: Seq<Option<i32>>) -> bool {
    forall|i: int|
        0 <= i < ds.len() ==> ((#[trigger] ds[i]) matches Option::Some(w) ==> 0 <= w
            < NUM_FACTIONS)
}

/// Every agent's faction id is the unaffiliated one or a tracked one.
pub open spec fn factions_valid(agents: Seq<Agent>) -> bool {
    forall|i: int| 0 <= i < agents.len() ==> -1 <= (#[trigger] agents[i]).faction < NUM_FACTIONS
}

/// The apply phase never changes how many agents there are, nor how many
/// counts are tracked, and keeps every faction id valid.
pub proof fn lemma_apply_upto_len(
    agents0: Seq<Agent>,
    counts0: Seq<u32>,
    ds: Seq<Option<i32>>,
    n: int,
)
    requires
        n <= ds.len(),
        agents0.len() == ds.len(),
        counts0.len() == NUM_FACTIONS,
        decisions_valid(ds),
        factions_valid(agents0),
    ensures
        apply_upto(agents0, counts0, ds, n).agents.len() == agents0.len(),
        apply_upto(agents0, counts0, ds, n).counts.len() == counts0.len(),
        factions_valid(apply_upto(agents0, counts0, ds, n).agents),
    decreases n,
{
    if n > 0 {
        lemma_apply_upto_len(agents0, counts0, ds, n - 1);
        let st = apply_upto(agents0, counts0, ds, n - 1);
        let nxt = apply_upto(agents0, counts0, ds, n);
        assert forall|q: int| 0 <= q < nxt.agents.len() implies -1 <= (#[trigger] nxt.agents[q]).faction
            < NUM_FACTIONS by {
            assert(nxt.agents[q] == st.agents[q] || (nxt.agents[q].faction == st.agents[q].faction)
                || (ds[n - 1] matches Option::Some(w) && nxt.agents[q].faction == w));
        }
    }
}

/// Later steps of the apply phase leave agent `i` alone once its own step
/// has run, and never clear the elimination flag.
proof fn lemma_apply_frame(
    agents0: Seq<Agent>,
    counts0: Seq<u32>,
    ds: Seq<Option<i32>>,
    i: int,
    n: int,
)
    requires
        0 <= i,
        i + 1 <= n <= ds.len(),
        agents0.len() == ds.len(),
        counts0.len() == NUM_FACTIONS,
        decisions_valid(ds),
        factions_valid(agents0),
    ensures
        apply_upto(agents0, counts0, ds, n).agents.len() == apply_upto(
            agents0,
            counts0,
            ds,
            i + 1,
        ).agents.len(),
        0 <= i < apply_upto(agents0, counts0, ds, i + 1).agents.len() ==> apply_upto(
            agents0,
            counts0,
            ds,
            n,
        ).agents[i] == apply_upto(agents0, counts0, ds, i + 1).agents[i],
        apply_upto(agents0, counts0, ds, i + 1).player_eliminated ==> apply_upto(
            agents0,
            counts0,
            ds,
            n,
        ).player_eliminated,
    decreases n - i - 1,
{
    if i + 1 < n {
        lemma_apply_frame(agents0, counts0, ds, i, n - 1);
        lemma_apply_upto_len(agents0, counts0, ds, n - 1);
    }
}

/// Leader elimination: when a leader's recorded vote favors another faction
/// at a moment its faction's count says it is the faction's last member, the
/// apply phase demotes it — it keeps its faction but is no leader once the
/// phase has run — and when that leader was the player's, the phase reports
/// the player eliminated.
pub proof fn lemma_leader_elimination(
    agents0: Seq<Agent>,
    counts0: Seq<u32>,
    ds: Seq<Option<i32>>,
    i: int,
    w: i32,
)
    requires
        0 <= i < ds.len(),
        agents0.len() == ds.len(),
        counts0.len() == NUM_FACTIONS,
        decisions_valid(ds),
        factions_valid(agents0),
        ({
            let st = apply_upto(agents0, counts0, ds, i);
            &&& st.agents[i].kind == AgentKind::Pawn
            &&& ds[i] == Option::Some(w)
            &&& w != st.agents[i].faction
            &&& 0 <= st.agents[i].faction
            &&& st.counts[st.agents[i].faction as int] <= 1
        }),
    ensures
        ({
            let st = apply_upto(agents0, counts0, ds, i);
            let fin = apply_upto(agents0, counts0, ds, ds.len() as int);
            &&& fin.agents[i].kind == AgentKind::Wanderer
            &&& fin.agents[i].faction == st.agents[i].faction
            &&& (st.agents[i].faction == 0 ==> fin.player_eliminated)
        }),
{
    lemma_apply_upto_len(agents0, counts0, ds, i);
    lemma_apply_frame(agents0, counts0, ds, i, ds.len() as int);
}

/// The apply phase: walks the recorded decisions in order and carries out
/// each, keeping the registry's counts coherent with the store throughout.
pub fn apply_conversions(
    store: &mut AgentStore,
    reg: &mut FactionRegistry,
    ds: &Vec<Option<i32>>,
) -> (player_eliminated: bool)
    requires
        old(store).wf(),
        old(reg).wf(),
        old(reg).coherent(old(store).agents@),
        ds@.len() == old(store).agents@.len(),
        forall|i: int|
            0 <= i < ds@.len() ==> ((#[trigger] ds@[i]) matches Option::Some(w) ==> 0 <= w
                < NUM_FACTIONS),
    ensures
        ({
            let st = apply_upto(old(store).agents@, old(reg).counts@, ds@, ds@.len() as int);
            &&& final(store).agents@ == st.agents
            &&& final(reg).counts@ == st.counts
            &&& player_eliminated == st.player_eliminated
        }),
        final(store).wf(),
        final(reg).wf(),
        final(reg).coherent(final(store).agents@),
        final(store).agents@.len() == old(store).agents@.len(),
        final(reg).names@ == old(reg).names@,
        final(reg).colors@ == old(reg).colors@,
        final(reg).neutral_color == old(reg).neutral_color,
{
    let n = store.agents.len();
    let mut elim = false;
    let mut i: usize = 0;
    while i < n
        invariant
            i <= n,
            n == old(store).agents@.len(),
            ds@.len() == n,
            forall|q: int|
                0 <= q < ds@.len() ==> ((#[trigger] ds@[q]) matches Option::Some(w) ==> 0 <= w
                    < NUM_FACTIONS),
            ({
                let st = apply_upto(old(store).agents@, old(reg).counts@, ds@, i as int);
                &&& store.agents@ == st.agents
                &&& reg.counts@ == st.counts
                &&& elim == st.player_eliminated
            }),
            store.wf(),
            reg.wf(),
            reg.coherent(store.agents@),
            store.agents@.len() == n,
            reg.names@ == old(reg).names@,
            reg.colors@ == old(reg).colors@,
            reg.neutral_color == old(reg).neutral_color,
        decreases n - i,
    {
        let ghost pre_agents = store.agents@;
        let ghost pre_counts = reg.counts@;
        let d = ds[i];
        match d {
            Option::None => {},
            Option::Some(w) => {
                let a = store.agents[i];
                if w != a.faction {
                    if matches!(a.kind, AgentKind::Pawn) {
                        let f = a.faction;
                        assert(0 <= f < NUM_FACTIONS);
                        let cnt = reg.counts[f as usize];
                        if cnt <= 1 {
                            store.agents.set(i, Agent { kind: AgentKind::Wanderer, ..a });
                            if f == 0 {
                                elim = true;
                            }
                            proof {
                                assert forall|g: int|
                                    0 <= g < NUM_FACTIONS implies reg.counts@[g] == count_faction(
                                    store.agents@,
                                    g,
                                ) by {
                                    lemma_count_faction_update(pre_agents, i as int, demoted(a), g);
                                }
                            }
                        }
                    } else {
                        if a.faction >= 0 {
                            let f = a.faction;
                            proof {
                                lemma_count_faction_pos(pre_agents, i as int, f as int);
                            }
                            let c = reg.counts[f as usize];
                            let updated = c - 1;
                            reg.counts.set(f as usize, updated);
                        }
                        proof {
                            lemma_count_faction_le_len(pre_agents, w as int);
                        }
                        let cw = reg.counts[w as usize];
                        store.agents.set(i, Agent { faction: w, vel: V2::zero(), ..a });
                        reg.counts.set(w as usize, cw + 1);
                        proof {
                            assert forall|g: int|
                                0 <= g < NUM_FACTIONS implies reg.counts@[g] == count_faction(
                                store.agents@,
                                g,
                            ) by {
                                lemma_count_faction_update(pre_agents, i as int, converted(a, w), g);
                            }
                        }
                    }
                }
            },
        }
        proof {
            let st_next = apply_upto(old(store).agents@, old(reg).counts@, ds@, i + 1);
            assert(st_next == convert_step(
                apply_upto(old(store).agents@, old(reg).counts@, ds@, i as int),
                i as int,
                ds@[i as int],
            ));
        }
        i = i + 1;
    }
    elim
}

/// Two read phases over one snapshot record identical decisions.
pub proof fn lemma_conversion_determinism(
    agents: Seq<Agent>,
    pts: Seq<V2>,
    d1: Seq<Option<i32>>,
    d2: Seq<Option<i32>>,
)
    requires
        d1.len() == d2.len(),
        forall|i: int| 0 <= i < d1.len() ==> d1[i] == conversion_decision(agents, pts, i),
        forall|i: int| 0 <= i < d2.len() ==> d2[i] == conversion_decision(agents, pts, i),
    ensures
        d1 == d2,
{
    assert(d1 =~= d2);
}

} // verus!
