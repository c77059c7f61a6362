//! The flocking updater: faction members steer toward their leader's
//! velocity (alignment) and position (cohesion).

use vstd::prelude::*;
use crate::agent::{Agent, AgentKind, AgentStore};
use crate::config::{ACC_LIMIT, ALIGN_DIV, ATTRACT_DIV, ATTRACT_NUM, NUM_FACTIONS};
use crate::vec2::{clamp1, div_trunc, V2};

verus! {

/// The first leader of faction `f` among agents `0 .. n`, if any.
pub open spec fn leader_upto(agents: Seq<Agent>, f: int, n: int) -> Option<int>
    decreases n,
{
    if n <= 0 {
        Option::None
    } else {
        match leader_upto(agents, f, n - 1) {
            Option::Some(j) => Option::Some(j),
            Option::None => if agents[n - 1].kind == AgentKind::Pawn && agents[n - 1].faction
                == f {
                Option::Some(n - 1)
            } else {
                Option::None
            },
        }
    }
}

/// The agent currently leading faction `f`, if any.
pub open spec fn leader_of(agents: Seq<Agent>, f: int) -> Option<int> {
    leader_upto(agents, f, agents.len() as int)
}

/// Acceleration after one flocking step toward a leader with velocity `lv`
/// and position `lp`: gains a fraction of the velocity gap and a fraction of
/// the offset, then saturates.
pub open spec fn flock_acc(a: Agent, lv: V2, lp: V2) -> V2 {
    V2 {
        x: clamp1(
            a.acc.x + div_trunc(lv.x - a.vel.x, ALIGN_DIV as int) + div_trunc(
                (lp.x - a.pos.x) * ATTRACT_NUM,
                ATTRACT_DIV as int,
            ),
            ACC_LIMIT as int,
        ) as i64,
        y: clamp1(
            a.acc.y + div_trunc(lv.y - a.vel.y, ALIGN_DIV as int) + div_trunc(
                (lp.y - a.pos.y) * ATTRACT_NUM,
                ATTRACT_DIV as int,
            ),
            ACC_LIMIT as int,
        ) as i64,
    }
}

/// One flocking step for agent `i`: a faction member (non-leader, affiliated)
/// whose faction currently has a leader steers toward it; everyone else is
/// left alone.  Leaders themselves are never modified by this pass, so the
/// leader data every agent sees is the settled snapshot.
pub open spec fn flocked_agent(agents: Seq<Agent>, i: int) -> Agent {
    let a = agents[i];
    if a.kind != AgentKind::Pawn && a.faction != -1 && leader_of(
        agents,
        a.faction as int,
    ) is Some {
        let j = leader_of(agents, a.faction as int)->Some_0;
        Agent { acc: flock_acc(a, agents[j].vel, agents[j].pos), ..a }
    } else {
        a
    }
}

/// Finds the current leader of faction `f`.
pub fn find_leader(store: &AgentStore, f: i32) -> (r: Option<usize>)
    ensures
        match r {
            Option::Some(j) => leader_of(store.agents@, f as int) == Option::Some(j as int) && j
                < store.agents@.len(),
            Option::None => leader_of(store.agents@, f as int) is None,
        },
{
    let n = store.agents.len();
    let mut j: usize = 0;
    while j < n
        invariant
            j <= n,
            n == store.agents@.len(),
            leader_upto(store.agents@, f as int, j as int) is None,
        decreases n - j,
    {
        let a = &store.agents[j];
        if matches!(a.kind, AgentKind::Pawn) && a.faction == f {
            proof {
                lemma_leader_found(store.agents@, f as int, j as int, n as int);
            }
            return Option::Some(j);
        }
        j = j + 1;
    }
    Option::None
}

/// Once the first leader is found at `j`, the whole scan returns `j`.
proof fn lemma_leader_found(agents: Seq<Agent>, f: int, j: int, n: int)
    requires
        0 <= j < n <= agents.len(),
        leader_upto(agents, f, j) is None,
        agents[j].kind == AgentKind::Pawn,
        agents[j].faction == f,
    ensures
        leader_upto(agents, f, n) == Option::Some(j),
    decreases n,
{
    if n - 1 > j {
        lemma_leader_found(agents, f, j, n - 1);
    }
}

/// Runs the flocking step over the whole store.
pub fn update_flocking(store: &mut AgentStore)
    requires
        old(store).wf(),
    ensures
        final(store).wf(),
        final(store).agents@.len() == old(store).agents@.len(),
        forall|i: int|
            0 <= i < final(store).agents@.len() ==> final(store).agents@[i] == flocked_agent(
                old(store).agents@,
                i,
            ),
{
    let ghost agents0 = store.agents@;
    // leader positions and velocities per faction, from the settled snapshot
    let mut leaders: Vec<Option<(V2, V2)>> = Vec::new();
    let mut f: i32 = 0;
    while f < NUM_FACTIONS
        invariant
            0 <= f <= NUM_FACTIONS,
            store.agents@ == agents0,
            store.wf(),
            leaders@.len() == f,
            forall|g: int|
                0 <= g < f ==> #[trigger] leaders@[g] == match leader_of(agents0, g) {
                    Option::Some(j) => Option::Some((agents0[j].vel, agents0[j].pos)),
                    Option::None => Option::None,
                },
        decreases NUM_FACTIONS - f,
    {
        let entry = match find_leader(store, f) {
            Option::Some(j) => {
                let a = &store.agents[j];
                Option::Some((a.vel, a.pos))
            },
            Option::None => Option::None,
        };
        leaders.push(entry);
        f = f + 1;
    }
    let n = store.agents.len();
    let mut i: usize = 0;
    while i < n
        invariant
            i <= n,
            n == agents0.len(),
            store.agents@.len() == n,
            old(store).wf(),
            agents0 == old(store).agents@,
            leaders@.len() == NUM_FACTIONS,
            forall|g: int|
                0 <= g < NUM_FACTIONS ==> #[trigger] leaders@[g] == match leader_of(agents0, g) {
                    Option::Some(j) => Option::Some((agents0[j].vel, agents0[j].pos)),
                    Option::None => Option::None,
                },
            forall|m: int| i <= m < n ==> store.agents@[m] == agents0[m],
            forall|m: int| 0 <= m < i ==> store.agents@[m] == flocked_agent(agents0, m),
            forall|m: int| 0 <= m < i ==> crate::agent::agent_wf(#[trigger] store.agents@[m]),
        decreases n - i,
    {
        let a = store.agents[i];
        assert(a == agents0[i as int]);
        assert(crate::agent::agent_wf(a));
        if !matches!(a.kind, AgentKind::Pawn) && a.faction != -1 {
            match leaders[a.faction as usize] {
                Option::Some((lv, lp)) => {
                    let ghost j = leader_of(agents0, a.faction as int)->Some_0;
                    proof {
                        lemma_leader_in_range(agents0, a.faction as int);
                        assert(crate::agent::agent_wf(agents0[j]));
                    }
                    let ax = a.acc.x + crate::vec2::div_comp(lv.x - a.vel.x, ALIGN_DIV)
                        + crate::vec2::div_comp((lp.x - a.pos.x) * ATTRACT_NUM, ATTRACT_DIV);
                    let ay = a.acc.y + crate::vec2::div_comp(lv.y - a.vel.y, ALIGN_DIV)
                        + crate::vec2::div_comp((lp.y - a.pos.y) * ATTRACT_NUM, ATTRACT_DIV);
                    let acc = V2 { x: ax, y: ay }.clamp_box(ACC_LIMIT);
                    store.agents.set(i, Agent { acc, ..a });
                },
                Option::None => {},
            }
        }
        i = i + 1;
    }
}

/// A leader index returned by the lookup is a well-formed index.
proof fn lemma_leader_in_range(agents: Seq<Agent>, f: int)
    requires
        leader_of(agents, f) is Some,
    ensures
        0 <= leader_of(agents, f)->Some_0 < agents.len(),
        agents[leader_of(agents, f)->Some_0].kind == AgentKind::Pawn,
        agents[leader_of(agents, f)->Some_0].faction == f,
{
    lemma_leader_upto_in_range(agents, f, agents.len() as int);
}

proof fn lemma_leader_upto_in_range(agents: Seq<Agent>, f: int, n: int)
    requires
        n <= agents.len(),
        leader_upto(agents, f, n) is Some,
    ensures
        0 <= leader_upto(agents, f, n)->Some_0 < n,
        agents[leader_upto(agents, f, n)->Some_0].kind == AgentKind::Pawn,
        agents[leader_upto(agents, f, n)->Some_0].faction == f,
    decreases n,
{
    if n > 0 && leader_upto(agents, f, n - 1) is Some {
        lemma_leader_upto_in_range(agents, f, n - 1);
    }
}

} // verus!
