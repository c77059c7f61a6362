//! Round setup: the seeded registry and the initial agent population.

use vstd::prelude::*;
use crate::agent::{Agent, AgentKind, AgentStore, Controller};
use crate::config::{
    ACTION_REGION, ACTOR_COUNT, NUM_FACTIONS, OPPONENT_COUNT, PAWN_SPEED, PLAYER_REGION,
    WANDER_SPEED,
};
use crate::registry::{
    count_faction, get_color_by_faction, lemma_count_faction_push, spec_color_by_faction,
    FactionRegistry, Rgb,
};
use crate::vec2::{in_box, norm_sq, spec_scale_to_len, V2, SCALE};

verus! {

/// The display name of a faction.
pub open spec fn spec_faction_name(f: int) -> Seq<char> {
    if f == 0 {
        "Player"@
    } else if f == 1 {
        "Anderson"@
    } else if f == 2 {
        "Bob"@
    } else if f == 3 {
        "Cat"@
    } else if f == 4 {
        "Doug"@
    } else if f == 5 {
        "Eason"@
    } else {
        ""@
    }
}

fn faction_name(f: i32) -> (r: String)
    ensures
        r@ == spec_faction_name(f as int),
{
    match f {
        0 => "Player".to_owned(),
        1 => "Anderson".to_owned(),
        2 => "Bob".to_owned(),
        3 => "Cat".to_owned(),
        4 => "Doug".to_owned(),
        5 => "Eason".to_owned(),
        _ => "".to_owned(),
    }
}

/// The registry at round start: every tracked faction has one member (its
/// leader), its display color and its display name.
pub fn seed_registry() -> (reg: FactionRegistry)
    ensures
        reg.wf(),
        reg.seeded(),
        forall|f: int| 0 <= f < NUM_FACTIONS ==> reg.names@[f]@ == spec_faction_name(f),
        forall|f: int| 0 <= f < NUM_FACTIONS ==> reg.colors@[f] == spec_color_by_faction(f),
        reg.neutral_color == spec_color_by_faction(-1),
{
    let mut counts: Vec<u32> = Vec::new();
    let mut names: Vec<String> = Vec::new();
    let mut colors: Vec<Rgb> = Vec::new();
    let mut f: i32 = 0;
    while f < NUM_FACTIONS
        invariant
            0 <= f <= NUM_FACTIONS,
            counts@.len() == f,
            names@.len() == f,
            colors@.len() == f,
            forall|g: int| 0 <= g < f ==> counts@[g] == 1,
            forall|g: int| 0 <= g < f ==> names@[g]@ == spec_faction_name(g),
            forall|g: int| 0 <= g < f ==> colors@[g] == spec_color_by_faction(g),
        decreases NUM_FACTIONS - f,
    {
        counts.push(1);
        names.push(faction_name(f));
        colors.push(get_color_by_faction(f));
        f = f + 1;
    }
    FactionRegistry { counts, names, colors, neutral_color: get_color_by_faction(-1) }
}

/// Draws a spawn position within the half-extent `region`.
fn draw_position(rng: &mut rand::rngs::ThreadRng, region: i64) -> (r: V2)
    requires
        1 <= region <= 1_000_000_000,
    ensures
        in_box(r, region as int),
{
    let x = crate::rng::draw_range(rng, -region, region);
    let y = crate::rng::draw_range(rng, -region, region);
    V2 { x, y }
}

/// The velocity of a freshly spawned agent: some drawn direction rescaled
/// to `speed`, so its components and its magnitude stay within `speed`
/// (a zero draw leaves it at rest).
pub open spec fn drawn_velocity(vel: V2, speed: int) -> bool {
    &&& in_box(vel, speed)
    &&& norm_sq(vel) <= speed * speed
    &&& exists|d: V2| in_box(d, SCALE as int) && vel == spec_scale_to_len(d, speed)
}

/// Draws a direction and rescales it to `speed`.
fn draw_velocity(rng: &mut rand::rngs::ThreadRng, speed: i64) -> (r: V2)
    requires
        0 <= speed <= 2_000_000,
    ensures
        drawn_velocity(r, speed as int),
{
    let dx = crate::rng::draw_range(rng, -SCALE, SCALE);
    let dy = crate::rng::draw_range(rng, -SCALE, SCALE);
    let d = V2 { x: dx, y: dy };
    let r = d.scale_to_len(speed);
    proof {
        assert(in_box(d, SCALE as int) && r == spec_scale_to_len(d, speed as int));
    }
    r
}

/// Whether the store holds a freshly spawned round: the configured number
/// of unaffiliated random-walk wanderers, then one random-walk leader per
/// opponent faction, then the player's leader; everyone at rest
/// (acceleration zero) inside their spawn region, with a drawn velocity no
/// faster than their kind's speed.
pub open spec fn spawned_layout(agents: Seq<Agent>) -> bool {
    &&& agents.len() == ACTOR_COUNT + OPPONENT_COUNT + 1
    &&& forall|i: int|
        0 <= i < ACTOR_COUNT ==> (#[trigger] agents[i]).kind == AgentKind::Wanderer
            && agents[i].faction == -1 && agents[i].controller == Controller::RandomWalk
    &&& forall|o: int|
        0 <= o < OPPONENT_COUNT ==> (#[trigger] agents[ACTOR_COUNT + o]).kind == AgentKind::Pawn
            && agents[ACTOR_COUNT + o].faction == o + 1 && agents[ACTOR_COUNT + o].controller
            == Controller::RandomWalk
    &&& agents[ACTOR_COUNT + OPPONENT_COUNT as int].kind == AgentKind::Pawn
    &&& agents[ACTOR_COUNT + OPPONENT_COUNT as int].faction == 0
    &&& agents[ACTOR_COUNT + OPPONENT_COUNT as int].controller == Controller::PlayerInput
    &&& forall|i: int| 0 <= i < agents.len() ==> (#[trigger] agents[i]).acc == V2::spec_zero()
    &&& forall|i: int|
        0 <= i < ACTOR_COUNT ==> in_box((#[trigger] agents[i]).pos, ACTION_REGION as int)
            && drawn_velocity(agents[i].vel, WANDER_SPEED as int)
    &&& forall|o: int|
        0 <= o < OPPONENT_COUNT ==> in_box(
            (#[trigger] agents[ACTOR_COUNT + o]).pos,
            ACTION_REGION as int,
        ) && drawn_velocity(agents[ACTOR_COUNT + o].vel, PAWN_SPEED as int)
    &&& in_box(agents[ACTOR_COUNT + OPPONENT_COUNT as int].pos, PLAYER_REGION as int)
    &&& drawn_velocity(agents[ACTOR_COUNT + OPPONENT_COUNT as int].vel, PAWN_SPEED as int)
}

/// Spawns the initial population: wanderers across the action region, one
/// leader per opponent faction, and the player's leader near the middle.
/// Positions and directions are random draws, so beyond the layout only
/// well-formedness is promised; every faction's population is exactly its
/// leader, which is what the seeded registry expects.
pub fn setup_round(rng: &mut rand::rngs::ThreadRng) -> (store: AgentStore)
    ensures
        store.wf(),
        spawned_layout(store.agents@),
        forall|f: int| 0 <= f < NUM_FACTIONS ==> count_faction(store.agents@, f) == 1,
{
    let mut agents: Vec<Agent> = Vec::new();
    let mut i: usize = 0;
    while i < ACTOR_COUNT
        invariant
            i <= ACTOR_COUNT,
            agents@.len() == i,
            forall|m: int| 0 <= m < i ==> crate::agent::agent_wf(#[trigger] agents@[m]),
            forall|m: int|
                0 <= m < i ==> (#[trigger] agents@[m]).kind == AgentKind::Wanderer
                    && agents@[m].faction == -1 && agents@[m].controller == Controller::RandomWalk,
            forall|m: int|
                0 <= m < i ==> (#[trigger] agents@[m]).acc == V2::spec_zero() && in_box(
                    agents@[m].pos,
                    ACTION_REGION as int,
                ) && drawn_velocity(agents@[m].vel, WANDER_SPEED as int),
            forall|f: int| 0 <= f < NUM_FACTIONS ==> count_faction(agents@, f) == 0,
        decreases ACTOR_COUNT - i,
    {
        let ghost before = agents@;
        let pos = draw_position(rng, ACTION_REGION);
        let vel = draw_velocity(rng, WANDER_SPEED);
        let a = Agent {
            pos,
            vel,
            acc: V2::zero(),
            faction: -1,
            kind: AgentKind::Wanderer,
            controller: Controller::RandomWalk,
        };
        agents.push(a);
        proof {
            assert forall|f: int| 0 <= f < NUM_FACTIONS implies count_faction(agents@, f) == 0 by {
                lemma_count_faction_push(before, a, f);
            }
        }
        i = i + 1;
    }
    let mut o: i32 = 0;
    while o < OPPONENT_COUNT
        invariant
            0 <= o <= OPPONENT_COUNT,
            agents@.len() == ACTOR_COUNT + o,
            forall|m: int| 0 <= m < agents@.len() ==> crate::agent::agent_wf(#[trigger] agents@[m]),
            forall|m: int|
                0 <= m < ACTOR_COUNT ==> (#[trigger] agents@[m]).kind == AgentKind::Wanderer
                    && agents@[m].faction == -1 && agents@[m].controller == Controller::RandomWalk,
            forall|m: int|
                0 <= m < o ==> (#[trigger] agents@[ACTOR_COUNT + m]).kind == AgentKind::Pawn
                    && agents@[ACTOR_COUNT + m].faction == m + 1 && agents@[ACTOR_COUNT
                    + m].controller == Controller::RandomWalk,
            forall|m: int|
                0 <= m < ACTOR_COUNT + o ==> (#[trigger] agents@[m]).acc == V2::spec_zero()
                    && in_box(agents@[m].pos, ACTION_REGION as int),
            forall|m: int|
                ACTOR_COUNT <= m < ACTOR_COUNT + o ==> drawn_velocity(
                    (#[trigger] agents@[m]).vel,
                    PAWN_SPEED as int,
                ),
            forall|m: int|
                0 <= m < ACTOR_COUNT ==> drawn_velocity(
                    (#[trigger] agents@[m]).vel,
                    WANDER_SPEED as int,
                ),
            forall|f: int|
                0 <= f < NUM_FACTIONS ==> count_faction(agents@, f) == if 1 <= f <= o {
                    1nat
                } else {
                    0nat
                },
        decreases OPPONENT_COUNT - o,
    {
        let ghost before = agents@;
        let pos = draw_position(rng, ACTION_REGION);
        let vel = draw_velocity(rng, PAWN_SPEED);
        let a = Agent {
            pos,
            vel,
            acc: V2::zero(),
            faction: o + 1,
            kind: AgentKind::Pawn,
            controller: Controller::RandomWalk,
        };
        agents.push(a);
        proof {
            assert forall|f: int|
                0 <= f < NUM_FACTIONS implies count_faction(agents@, f) == (if 1 <= f <= o + 1 {
                1nat
            } else {
                0nat
            }) by {
                lemma_count_faction_push(before, a, f);
            }
        }
        o = o + 1;
    }
    let ghost before = agents@;
    let pos = draw_position(rng, PLAYER_REGION);
    let vel = draw_velocity(rng, PAWN_SPEED);
    let player = Agent {
        pos,
        vel,
        acc: V2::zero(),
        faction: 0,
        kind: AgentKind::Pawn,
        controller: Controller::PlayerInput,
    };
    agents.push(player);
    proof {
        assert forall|f: int| 0 <= f < NUM_FACTIONS implies count_faction(agents@, f) == 1 by {
            lemma_count_faction_push(before, player, f);
        }
    }
    AgentStore { agents }
}

} // verus!
