//! The movement updater: integrates velocity into position for every agent,
//! and, for non-leaders, integrates acceleration into velocity, caps the
//! speed, and damps the acceleration.

use vstd::prelude::*;
use crate::agent::{Agent, AgentKind, AgentStore};
use crate::config::{COORD_LIMIT, PAWN_SPEED};
use crate::vec2::{clamp1, div_trunc, in_box, norm_sq, scaled, sqrt_ceil, V2};

verus! {

/// Next position: the current one advanced by the velocity, kept inside the
/// arena.
pub open spec fn step_pos(a: Agent) -> V2 {
    V2 {
        x: clamp1(a.pos.x + a.vel.x, COORD_LIMIT as int) as i64,
        y: clamp1(a.pos.y + a.vel.y, COORD_LIMIT as int) as i64,
    }
}

/// Next velocity of a non-leader: the current one advanced by the
/// acceleration, rescaled to the speed cap whenever it exceeds it.
pub open spec fn step_vel(a: Agent) -> V2 {
    let vx = a.vel.x + a.acc.x;
    let vy = a.vel.y + a.acc.y;
    if vx * vx + vy * vy <= PAWN_SPEED * PAWN_SPEED {
        V2 { x: vx as i64, y: vy as i64 }
    } else {
        let l = sqrt_ceil(vx * vx + vy * vy);
        V2 {
            x: scaled(vx, PAWN_SPEED as int, l) as i64,
            y: scaled(vy, PAWN_SPEED as int, l) as i64,
        }
    }
}

/// Next acceleration of a non-leader: damped by half each tick.
pub open spec fn step_acc(a: Agent) -> V2 {
    V2 { x: div_trunc(a.acc.x as int, 2) as i64, y: div_trunc(a.acc.y as int, 2) as i64 }
}

/// One movement step.  A leader moves at its commanded velocity and keeps
/// it; every other agent also integrates and damps its acceleration.
pub open spec fn moved_agent(a: Agent) -> Agent {
    if a.kind == AgentKind::Pawn {
        Agent { pos: step_pos(a), ..a }
    } else {
        Agent { pos: step_pos(a), vel: step_vel(a), acc: step_acc(a), ..a }
    }
}

/// Runs the movement step over the whole store.  Afterwards every
/// non-leader's speed is at most the cap (the cap law).
pub fn update_movement(store: &mut AgentStore)
    requires
        old(store).wf(),
    ensures
        final(store).wf(),
        final(store).agents@.len() == old(store).agents@.len(),
        forall|i: int|
            0 <= i < final(store).agents@.len() ==> final(store).agents@[i] == moved_agent(
                #[trigger] old(store).agents@[i],
            ),
        forall|i: int|
            0 <= i < final(store).agents@.len() && old(store).agents@[i].kind != AgentKind::Pawn
                ==> norm_sq(#[trigger] final(store).agents@[i].vel) <= PAWN_SPEED * PAWN_SPEED,
{
    let n = store.agents.len();
    let mut i: usize = 0;
    while i < n
        invariant
            i <= n,
            n == store.agents@.len(),
            old(store).agents@.len() == n,
            old(store).wf(),
            forall|m: int| i <= m < n ==> store.agents@[m] == old(store).agents@[m],
            forall|m: int|
                0 <= m < i ==> store.agents@[m] == moved_agent(#[trigger] old(store).agents@[m]),
            forall|m: int| 0 <= m < i ==> crate::agent::agent_wf(#[trigger] store.agents@[m]),
            forall|m: int|
                0 <= m < i && old(store).agents@[m].kind != AgentKind::Pawn ==> norm_sq(
                    #[trigger] store.agents@[m].vel,
                ) <= PAWN_SPEED * PAWN_SPEED,
        decreases n - i,
    {
        let a = store.agents[i];
        assert(a == old(store).agents@[i as int]);
        assert(crate::agent::agent_wf(a));
        let pos = a.pos.add(a.vel).clamp_box(COORD_LIMIT);
        let next = if matches!(a.kind, AgentKind::Pawn) {
            Agent { pos, ..a }
        } else {
            let v1 = a.vel.add(a.acc);
            let cap_sq: i64 = PAWN_SPEED * PAWN_SPEED;
            let vel = if v1.length_sq() > cap_sq {
                v1.scale_to_len(PAWN_SPEED)
            } else {
                proof {
                    assert(in_box(v1, PAWN_SPEED as int)) by (nonlinear_arith)
                        requires
                            v1.x * v1.x + v1.y * v1.y <= PAWN_SPEED * PAWN_SPEED,
                            PAWN_SPEED >= 1,
                    ;
                }
                v1
            };
            let acc = a.acc.div_by(2);
            proof {
                crate::vec2::lemma_div_trunc_bound(a.acc.x as int, 2);
                crate::vec2::lemma_div_trunc_bound(a.acc.y as int, 2);
            }
            Agent { pos, vel, acc, ..a }
        };
        assert(next == moved_agent(a));
        assert(crate::agent::agent_wf(next));
        store.agents.set(i, next);
        i = i + 1;
    }
}

} // verus!
