//! The per-tick controller updates: the player's commanded direction, and
//! the random direction changes of wanderers and opponent leaders.

use vstd::prelude::*;
use crate::agent::{Agent, AgentKind, AgentStore, Controller};
use crate::config::{
    DIRECTION_CHANGE_THRESHOLD, DIRECTION_DRAW_BOUND, OPPONENT_MOVE_SCALE, PAWN_SPEED,
};
use crate::vec2::{in_box, spec_scale_to_len, V2};

verus! {

/// The velocity after one random-walk step, given the three draws: a first
/// draw at or above the threshold keeps the velocity; a lower one redraws
/// it as the old velocity plus a unit vector of the drawn direction,
/// rescaled to `speed`.  (A zero drawn direction contributes nothing, and a
/// zero sum stays at rest: the fixed-point rescaling is total.)
pub open spec fn jittered_vel(vel: V2, speed: int, d0: int, dx: int, dy: int) -> V2 {
    if d0 >= DIRECTION_CHANGE_THRESHOLD {
        vel
    } else {
        let dir = spec_scale_to_len(V2 { x: dx as i64, y: dy as i64 }, OPPONENT_MOVE_SCALE as int);
        let sum = V2 { x: (vel.x + dir.x) as i64, y: (vel.y + dir.y) as i64 };
        spec_scale_to_len(sum, speed)
    }
}

/// One random-walk step, computed from the given draws.
pub fn jittered_velocity(vel: V2, speed: i64, d0: i64, dx: i64, dy: i64) -> (r: V2)
    requires
        in_box(vel, PAWN_SPEED as int),
        0 <= speed <= PAWN_SPEED,
        -OPPONENT_MOVE_SCALE <= dx <= OPPONENT_MOVE_SCALE,
        -OPPONENT_MOVE_SCALE <= dy <= OPPONENT_MOVE_SCALE,
    ensures
        r == jittered_vel(vel, speed as int, d0 as int, dx as int, dy as int),
        in_box(r, PAWN_SPEED as int),
{
    if d0 >= DIRECTION_CHANGE_THRESHOLD {
        vel
    } else {
        let dir = V2 { x: dx, y: dy }.scale_to_len(OPPONENT_MOVE_SCALE);
        let sum = vel.add(dir);
        let r = sum.scale_to_len(speed);
        r
    }
}

/// Random direction changes for every unaffiliated wanderer.  The draws are
/// random, so only the frame is promised: every other agent is untouched,
/// and a jittered agent changes nothing but its velocity, which stays
/// within the speed cap.
pub fn update_wanderer_directions(store: &mut AgentStore, rng: &mut rand::rngs::ThreadRng)
    requires
        old(store).wf(),
    ensures
        final(store).wf(),
        final(store).agents@.len() == old(store).agents@.len(),
        forall|i: int|
            0 <= i < final(store).agents@.len() && !(old(store).agents@[i].kind
                != AgentKind::Pawn && old(store).agents@[i].faction == -1)
                ==> final(store).agents@[i] == old(store).agents@[i],
        forall|i: int|
            0 <= i < final(store).agents@.len() ==> #[trigger] final(store).agents@[i]
                == old(store).agents@[i] || final(store).agents@[i] == (Agent {
                vel: final(store).agents@[i].vel,
                ..old(store).agents@[i]
            }),
{
    let n = store.agents.len();
    let mut i: usize = 0;
    while i < n
        invariant
            i <= n,
            n == store.agents@.len(),
            old(store).agents@.len() == n,
            old(store).wf(),
            forall|m: int| i <= m < n ==> store.agents@[m] == old(store).agents@[m],
            forall|m: int|
                0 <= m < i && !(old(store).agents@[m].kind != AgentKind::Pawn && old(
                    store,
                ).agents@[m].faction == -1) ==> store.agents@[m] == old(store).agents@[m],
            forall|m: int|
                0 <= m < i ==> #[trigger] store.agents@[m] == old(store).agents@[m]
                    || store.agents@[m] == (Agent {
                    vel: store.agents@[m].vel,
                    ..old(store).agents@[m]
                }),
            forall|m: int| 0 <= m < i ==> crate::agent::agent_wf(#[trigger] store.agents@[m]),
        decreases n - i,
    {
        let a = store.agents[i];
        assert(a == old(store).agents@[i as int]);
        assert(crate::agent::agent_wf(a));
        if !matches!(a.kind, AgentKind::Pawn) && a.faction == -1 {
            let vel = random_walk_step(a.vel, crate::config::WANDER_SPEED, rng);
            store.agents.set(i, Agent { vel, ..a });
        }
        i = i + 1;
    }
}

/// Random direction changes for every opponent leader.
pub fn update_opponent_directions(store: &mut AgentStore, rng: &mut rand::rngs::ThreadRng)
    requires
        old(store).wf(),
    ensures
        final(store).wf(),
        final(store).agents@.len() == old(store).agents@.len(),
        forall|i: int|
            0 <= i < final(store).agents@.len() && !(old(store).agents@[i].kind
                == AgentKind::Pawn && old(store).agents@[i].controller == Controller::RandomWalk)
                ==> final(store).agents@[i] == old(store).agents@[i],
        forall|i: int|
            0 <= i < final(store).agents@.len() ==> #[trigger] final(store).agents@[i]
                == old(store).agents@[i] || final(store).agents@[i] == (Agent {
                vel: final(store).agents@[i].vel,
                ..old(store).agents@[i]
            }),
{
    let n = store.agents.len();
    let mut i: usize = 0;
    while i < n
        invariant
            i <= n,
            n == store.agents@.len(),
            old(store).agents@.len() == n,
            old(store).wf(),
            forall|m: int| i <= m < n ==> store.agents@[m] == old(store).agents@[m],
            forall|m: int|
                0 <= m < i && !(old(store).agents@[m].kind == AgentKind::Pawn && old(
                    store,
                ).agents@[m].controller == Controller::RandomWalk) ==> store.agents@[m] == old(
                    store,
                ).agents@[m],
            forall|m: int|
                0 <= m < i ==> #[trigger] store.agents@[m] == old(store).agents@[m]
                    || store.agents@[m] == (Agent {
                    vel: store.agents@[m].vel,
                    ..old(store).agents@[m]
                }),
            forall|m: int| 0 <= m < i ==> crate::agent::agent_wf(#[trigger] store.agents@[m]),
        decreases n - i,
    {
        let a = store.agents[i];
        assert(a == old(store).agents@[i as int]);
        assert(crate::agent::agent_wf(a));
        if matches!(a.kind, AgentKind::Pawn) && matches!(a.controller, Controller::RandomWalk) {
            let vel = random_walk_step(a.vel, PAWN_SPEED, rng);
            store.agents.set(i, Agent { vel, ..a });
        }
        i = i + 1;
    }
}

/// Draws the jitter inputs and computes the step.  The draws are random, so
/// only a cap on the returned velocity is promised.
fn random_walk_step(vel: V2, speed: i64, rng: &mut rand::rngs::ThreadRng) -> (r: V2)
    requires
        in_box(vel, PAWN_SPEED as int),
        0 <= speed <= PAWN_SPEED,
    ensures
        in_box(r, PAWN_SPEED as int),
{
    let d0 = crate::rng::draw_range(rng, 0, DIRECTION_DRAW_BOUND);
    if d0 < DIRECTION_CHANGE_THRESHOLD {
        let dx = crate::rng::draw_range(rng, -OPPONENT_MOVE_SCALE, OPPONENT_MOVE_SCALE);
        let dy = crate::rng::draw_range(rng, -OPPONENT_MOVE_SCALE, OPPONENT_MOVE_SCALE);
        jittered_velocity(vel, speed, d0, dx, dy)
    } else {
        vel
    }
}

/// Applies the input collaborator's commanded direction (if any) to the
/// player-controlled leader: its velocity becomes the direction rescaled to
/// the leader speed.  With no input every agent is untouched.
pub fn apply_player_input(store: &mut AgentStore, dir: Option<V2>)
    requires
        old(store).wf(),
        dir matches Option::Some(d) ==> in_box(d, 2_000_000_000),
    ensures
        final(store).wf(),
        final(store).agents@.len() == old(store).agents@.len(),
        forall|i: int|
            0 <= i < final(store).agents@.len() ==> final(store).agents@[i] == match dir {
                Option::None => old(store).agents@[i],
                Option::Some(d) => if old(store).agents@[i].controller
                    == Controller::PlayerInput {
                    Agent {
                        vel: spec_scale_to_len(d, PAWN_SPEED as int),
                        ..old(store).agents@[i]
                    }
                } else {
                    old(store).agents@[i]
                },
            },
{
    match dir {
        Option::None => {},
        Option::Some(d) => {
            let n = store.agents.len();
            let mut i: usize = 0;
            while i < n
                invariant
                    i <= n,
                    n == store.agents@.len(),
                    old(store).agents@.len() == n,
                    old(store).wf(),
                    in_box(d, 2_000_000_000),
                    forall|m: int| i <= m < n ==> store.agents@[m] == old(store).agents@[m],
                    forall|m: int|
                        0 <= m < i ==> store.agents@[m] == (if old(store).agents@[m].controller
                            == Controller::PlayerInput {
                            Agent {
                                vel: spec_scale_to_len(d, PAWN_SPEED as int),
                                ..old(store).agents@[m]
                            }
                        } else {
                            old(store).agents@[m]
                        }),
                    forall|m: int|
                        0 <= m < i ==> crate::agent::agent_wf(#[trigger] store.agents@[m]),
                decreases n - i,
            {
                let a = store.agents[i];
                assert(a == old(store).agents@[i as int]);
                assert(crate::agent::agent_wf(a));
                if matches!(a.controller, Controller::PlayerInput) {
                    let vel = d.scale_to_len(PAWN_SPEED);
                    store.agents.set(i, Agent { vel, ..a });
                }
                i = i + 1;
            }
        },
    }
}

} // verus!
