use mgame::agent::{Agent, AgentKind, AgentStore, Controller};
use mgame::config::{
    ACTOR_COUNT, GAME_TIME_MS, NUM_FACTIONS, OPPONENT_COUNT, PAWN_SPEED, WANDER_SPEED,
};
use mgame::conversion::{apply_conversions, decide_conversions};
use mgame::flocking::update_flocking;
use mgame::movement::update_movement;
use mgame::registry::{get_color_by_faction, FactionRegistry, Rgb};
use mgame::separation::{apply_separation, decide_separation};
use mgame::session::{is_victory, ranking_of, tick_session, GameState, Session};
use mgame::setup::seed_registry;
use mgame::spatial::SpatialIndex;
use mgame::steering::{apply_player_input, jittered_velocity};
use mgame::vec2::{isqrt_ceil, V2};

fn wanderer(x: i64, y: i64, faction: i32) -> Agent {
    Agent {
        pos: V2 { x, y },
        vel: V2 { x: 0, y: 0 },
        acc: V2 { x: 0, y: 0 },
        faction,
        kind: AgentKind::Wanderer,
        controller: Controller::RandomWalk,
    }
}

fn pawn(x: i64, y: i64, faction: i32, controller: Controller) -> Agent {
    Agent {
        pos: V2 { x, y },
        vel: V2 { x: 0, y: 0 },
        acc: V2 { x: 0, y: 0 },
        faction,
        kind: AgentKind::Pawn,
        controller,
    }
}

fn registry_with_counts(counts: Vec<u32>) -> FactionRegistry {
    let seeded = seed_registry();
    FactionRegistry { counts, ..seeded }
}

#[test]
fn isqrt_ceil_exact_values() {
    assert_eq!(isqrt_ceil(0), 0);
    assert_eq!(isqrt_ceil(1), 1);
    assert_eq!(isqrt_ceil(25), 5);
    assert_eq!(isqrt_ceil(26), 6);
    assert_eq!(isqrt_ceil(2_020_000 * 2_020_000), 2_020_000);
}

#[test]
fn scale_to_len_exact() {
    let v = V2 { x: 3_000_000, y: 4_000_000 };
    let r = v.scale_to_len(1_000_000);
    assert_eq!(r, V2 { x: 600_000, y: 800_000 });
    let z = V2 { x: 0, y: 0 }.scale_to_len(1_000_000);
    assert_eq!(z, V2 { x: 0, y: 0 });
}

#[test]
fn color_mapping() {
    assert_eq!(get_color_by_faction(-1), Rgb { r: 255, g: 255, b: 255 });
    assert_eq!(get_color_by_faction(0), Rgb { r: 255, g: 0, b: 0 });
    assert_eq!(get_color_by_faction(99), Rgb { r: 0, g: 0, b: 0 });
}

#[test]
fn movement_caps_speed_and_damps() {
    let mut store = AgentStore {
        agents: vec![Agent {
            pos: V2 { x: 1_000, y: 0 },
            vel: V2 { x: 20_000, y: 0 },
            acc: V2 { x: 2_000_000, y: 0 },
            faction: -1,
            kind: AgentKind::Wanderer,
            controller: Controller::RandomWalk,
        }],
    };
    update_movement(&mut store);
    let a = &store.agents[0];
    // position advanced by the old velocity
    assert_eq!(a.pos, V2 { x: 21_000, y: 0 });
    // velocity integrated the acceleration, then was capped at PAWN_SPEED
    assert_eq!(a.vel, V2 { x: 20_000, y: 0 });
    // acceleration damped by half
    assert_eq!(a.acc, V2 { x: 1_000_000, y: 0 });
}

#[test]
fn movement_speed_cap_holds_for_all_wanderers() {
    let mut agents = Vec::new();
    for i in 0..50i64 {
        agents.push(Agent {
            pos: V2 { x: i * 1_000, y: 0 },
            vel: V2 { x: 20_000, y: -20_000 },
            acc: V2 { x: 1_999_999, y: 1_234_567 },
            faction: -1,
            kind: AgentKind::Wanderer,
            controller: Controller::RandomWalk,
        });
    }
    let mut store = AgentStore { agents };
    update_movement(&mut store);
    for a in &store.agents {
        let n = a.vel.x * a.vel.x + a.vel.y * a.vel.y;
        assert!(n <= PAWN_SPEED * PAWN_SPEED);
    }
}

#[test]
fn movement_leaves_leader_velocity_alone() {
    let mut leader = pawn(0, 0, 1, Controller::RandomWalk);
    leader.vel = V2 { x: 15_000, y: 0 };
    leader.acc = V2 { x: 1_000_000, y: 0 };
    let mut store = AgentStore { agents: vec![leader] };
    update_movement(&mut store);
    assert_eq!(store.agents[0].pos, V2 { x: 15_000, y: 0 });
    assert_eq!(store.agents[0].vel, V2 { x: 15_000, y: 0 });
    assert_eq!(store.agents[0].acc, V2 { x: 1_000_000, y: 0 });
}

#[test]
fn radius_query_includes_boundary() {
    let store = AgentStore {
        agents: vec![wanderer(0, 0, -1), wanderer(500_000, 0, -1), wanderer(500_001, 0, -1)],
    };
    let index = SpatialIndex::rebuild(&store);
    let hits = index.query_radius(V2 { x: 0, y: 0 }, 500_000);
    let ids: Vec<usize> = hits.iter().map(|p| p.0).collect();
    assert_eq!(ids, vec![0, 1]);
}

#[test]
fn k_nearest_breaks_ties_by_insertion_order() {
    let store = AgentStore {
        agents: vec![
            wanderer(0, 0, -1),
            wanderer(100, 0, -1),
            wanderer(100, 0, -1),
            wanderer(200, 0, -1),
        ],
    };
    let index = SpatialIndex::rebuild(&store);
    let nn = index.query_k_nearest(V2 { x: 0, y: 0 }, 2);
    let ids: Vec<usize> = nn.iter().map(|p| p.0).collect();
    // the querying agent itself is nearest (distance zero); the tie between
    // agents 1 and 2 goes to the earlier one
    assert_eq!(ids, vec![0, 1]);
}

#[test]
fn neutral_agent_converts_to_local_majority() {
    // a neutral agent with 3 neighbors of faction 2 and 1 of faction 3
    // within the vote radius
    let agents = vec![
        wanderer(0, 0, -1),
        wanderer(400_000, 0, 2),
        wanderer(-400_000, 0, 2),
        wanderer(0, 400_000, 2),
        wanderer(0, -400_000, 3),
    ];
    let mut store = AgentStore { agents };
    store.agents[0].vel = V2 { x: 5_000, y: 0 };
    let mut reg = registry_with_counts(vec![0, 0, 3, 1, 0, 0]);
    let index = SpatialIndex::rebuild(&store);
    let ds = decide_conversions(&store, &index);
    assert_eq!(ds[0], Some(2));
    let eliminated = apply_conversions(&mut store, &mut reg, &ds);
    assert!(!eliminated);
    assert_eq!(store.agents[0].faction, 2);
    assert_eq!(store.agents[0].vel, V2 { x: 0, y: 0 });
    assert_eq!(reg.counts[2], 4);
    assert_eq!(reg.counts[3], 1);
}

#[test]
fn conversion_read_phase_is_deterministic() {
    let agents = vec![
        wanderer(0, 0, -1),
        wanderer(300_000, 0, 4),
        wanderer(-300_000, 0, 5),
        wanderer(0, 300_000, 4),
    ];
    let store = AgentStore { agents };
    let index = SpatialIndex::rebuild(&store);
    let d1 = decide_conversions(&store, &index);
    let d2 = decide_conversions(&store, &index);
    assert_eq!(d1, d2);
}

#[test]
fn conversion_tie_goes_to_lowest_faction_id() {
    let agents = vec![
        wanderer(0, 0, -1),
        wanderer(300_000, 0, 4),
        wanderer(-300_000, 0, 3),
    ];
    let store = AgentStore { agents };
    let index = SpatialIndex::rebuild(&store);
    let ds = decide_conversions(&store, &index);
    assert_eq!(ds[0], Some(3));
}

#[test]
fn lone_leader_is_demoted_not_counted_out() {
    // leaders of factions 0 (player) and 1, populations {0: 1, 1: 1}; the
    // vote assigns faction 1's leader a plurality of faction 0
    let agents = vec![
        pawn(0, 0, 0, Controller::PlayerInput),
        pawn(10_000_000, 0, 1, Controller::RandomWalk),
    ];
    let mut store = AgentStore { agents };
    let mut reg = registry_with_counts(vec![1, 1, 0, 0, 0, 0]);
    let ds = vec![None, Some(0)];
    let eliminated = apply_conversions(&mut store, &mut reg, &ds);
    // the leader lost Pawn status but kept its faction
    assert_eq!(store.agents[1].kind, AgentKind::Wanderer);
    assert_eq!(store.agents[1].faction, 1);
    // elimination does not decrement: the registry is unchanged
    assert_eq!(reg.counts, vec![1, 1, 0, 0, 0, 0]);
    // only faction 0's elimination ends the round
    assert!(!eliminated);
    let mut session = Session::begin();
    tick_session(&mut session, &reg, eliminated, 16);
    assert_eq!(session.state, GameState::Playing);
}

#[test]
fn player_leader_elimination_ends_round_same_tick() {
    let agents = vec![
        pawn(0, 0, 0, Controller::PlayerInput),
        pawn(10_000_000, 0, 1, Controller::RandomWalk),
    ];
    let mut store = AgentStore { agents };
    let mut reg = registry_with_counts(vec![1, 1, 0, 0, 0, 0]);
    let ds = vec![Some(1), None];
    let eliminated = apply_conversions(&mut store, &mut reg, &ds);
    assert!(eliminated);
    assert_eq!(store.agents[0].kind, AgentKind::Wanderer);
    let mut session = Session::begin();
    tick_session(&mut session, &reg, eliminated, 16);
    assert_eq!(session.state, GameState::GameOver);
}

#[test]
fn surviving_leader_stands_when_faction_has_members() {
    let agents = vec![
        pawn(0, 0, 1, Controller::RandomWalk),
        wanderer(100_000, 0, 1),
    ];
    let mut store = AgentStore { agents };
    let mut reg = registry_with_counts(vec![0, 2, 0, 0, 0, 0]);
    let ds = vec![Some(2), None];
    let eliminated = apply_conversions(&mut store, &mut reg, &ds);
    assert!(!eliminated);
    assert_eq!(store.agents[0].kind, AgentKind::Pawn);
    assert_eq!(store.agents[0].faction, 1);
    assert_eq!(reg.counts, vec![0, 2, 0, 0, 0, 0]);
}

#[test]
fn flocking_steers_member_toward_leader() {
    let agents = vec![
        pawn(10_000_000, 0, 1, Controller::RandomWalk),
        wanderer(0, 0, 1),
    ];
    let mut store = AgentStore { agents };
    store.agents[0].vel = V2 { x: 20_000, y: 0 };
    update_flocking(&mut store);
    // alignment: 20_000 / 100 = 200; attraction: 10_000_000 * 3 / 10_000 = 3_000
    assert_eq!(store.agents[1].acc, V2 { x: 3_200, y: 0 });
    // the leader itself is untouched
    assert_eq!(store.agents[0].acc, V2 { x: 0, y: 0 });
}

#[test]
fn flocking_skips_member_without_leader() {
    let mut store = AgentStore { agents: vec![wanderer(0, 0, 2)] };
    store.agents[0].acc = V2 { x: 77, y: 0 };
    update_flocking(&mut store);
    assert_eq!(store.agents[0].acc, V2 { x: 77, y: 0 });
}

#[test]
fn separation_repels_close_same_faction_pairs() {
    let agents = vec![wanderer(0, 0, 2), wanderer(100_000, 0, 2), wanderer(0, 900_000, 2)];
    let mut store = AgentStore { agents };
    let index = SpatialIndex::rebuild(&store);
    let ds = decide_separation(&store, &index);
    assert_eq!(ds[0], Some(V2 { x: 1_000_000, y: 0 }));
    assert_eq!(ds[1], Some(V2 { x: -1_000_000, y: 0 }));
    assert_eq!(ds[2], None);
    apply_separation(&mut store, &ds);
    assert_eq!(store.agents[0].acc, V2 { x: -1_000, y: 0 });
    assert_eq!(store.agents[1].acc, V2 { x: 1_000, y: 0 });
    assert_eq!(store.agents[2].acc, V2 { x: 0, y: 0 });
}

#[test]
fn separation_ignores_different_factions_and_distance() {
    let agents = vec![
        wanderer(0, 0, 2),
        wanderer(100_000, 0, 3),
        wanderer(5_000_000, 0, 2),
    ];
    let store = AgentStore { agents };
    let index = SpatialIndex::rebuild(&store);
    let ds = decide_separation(&store, &index);
    assert_eq!(ds, vec![None, None, None]);
}

#[test]
fn jitter_keeps_velocity_above_threshold_draw() {
    let vel = V2 { x: 5_000, y: 0 };
    assert_eq!(jittered_velocity(vel, WANDER_SPEED, 100, 0, 0), vel);
    assert_eq!(jittered_velocity(vel, WANDER_SPEED, 9_999, -1_000_000, 1_000_000), vel);
}

#[test]
fn jitter_redraws_direction_below_threshold() {
    let vel = V2 { x: 0, y: 0 };
    let r = jittered_velocity(vel, WANDER_SPEED, 0, 1_000_000, 0);
    assert_eq!(r, V2 { x: WANDER_SPEED, y: 0 });
}

#[test]
fn player_input_rescales_direction_to_pawn_speed() {
    let agents = vec![
        pawn(0, 0, 0, Controller::PlayerInput),
        wanderer(0, 0, -1),
    ];
    let mut store = AgentStore { agents };
    apply_player_input(&mut store, Some(V2 { x: 3_000_000, y: 4_000_000 }));
    assert_eq!(store.agents[0].vel, V2 { x: 12_000, y: 16_000 });
    assert_eq!(store.agents[1].vel, V2 { x: 0, y: 0 });
    apply_player_input(&mut store, None);
    assert_eq!(store.agents[0].vel, V2 { x: 12_000, y: 16_000 });
}

#[test]
fn ranking_sorts_by_count_then_faction_id() {
    let reg = registry_with_counts(vec![1, 5, 5, 0, 2, 0]);
    let ranking = ranking_of(&reg);
    assert_eq!(ranking, vec![(1, 5), (2, 5), (4, 2), (0, 1), (3, 0), (5, 0)]);
}

#[test]
fn countdown_expiry_ends_round_and_snapshots_ranking() {
    let reg = registry_with_counts(vec![3, 1, 0, 0, 0, 0]);
    let mut session = Session::begin();
    assert_eq!(session.countdown.remaining_ms, GAME_TIME_MS);
    tick_session(&mut session, &reg, false, GAME_TIME_MS - 1);
    assert_eq!(session.state, GameState::Playing);
    assert_eq!(session.countdown.remaining_ms, 1);
    tick_session(&mut session, &reg, false, 16);
    assert_eq!(session.state, GameState::GameOver);
    assert_eq!(session.ranking[0], (0, 3));
    assert!(is_victory(&session));
    // a finished round ignores further ticks
    let before = session.ranking.clone();
    tick_session(&mut session, &reg, true, 16);
    assert_eq!(session.state, GameState::GameOver);
    assert_eq!(session.ranking, before);
}

#[test]
fn defeat_when_opponent_tops_ranking() {
    let reg = registry_with_counts(vec![1, 4, 0, 0, 0, 0]);
    let mut session = Session::begin();
    tick_session(&mut session, &reg, true, 16);
    assert_eq!(session.state, GameState::GameOver);
    assert_eq!(session.ranking[0], (1, 4));
    assert!(!is_victory(&session));
}

#[test]
fn seeded_registry_names_and_colors() {
    let reg = seed_registry();
    assert_eq!(reg.counts, vec![1; NUM_FACTIONS as usize]);
    assert_eq!(reg.names[0], "Player");
    assert_eq!(reg.names[5], "Eason");
    assert_eq!(reg.colors[0], Rgb { r: 255, g: 0, b: 0 });
    assert_eq!(reg.neutral_color, Rgb { r: 255, g: 255, b: 255 });
}

#[test]
fn population_is_conserved_across_ticks() {
    let mut rng = rand::thread_rng();
    let mut game = mgame::game::new_game(&mut rng);
    for _ in 0..5 {
        mgame::game::run_tick(&mut game, &mut rng, Some(V2 { x: 1_000_000, y: 0 }), 16);
        let sum: u64 = game.registry.counts.iter().map(|c| *c as u64).sum();
        let affiliated = game.store.agents.iter().filter(|a| a.faction >= 0).count() as u64;
        assert_eq!(sum, affiliated);
    }
}

#[test]
fn replay_restores_seed_populations_and_agent_count() {
    let mut rng = rand::thread_rng();
    let mut game = mgame::game::new_game(&mut rng);
    let expected = ACTOR_COUNT + OPPONENT_COUNT as usize + 1;
    assert_eq!(game.agent_count(), expected);
    // force the round to finish by running out the clock
    mgame::game::run_tick(&mut game, &mut rng, None, GAME_TIME_MS);
    assert_eq!(game.session.state, GameState::GameOver);
    mgame::game::replay(&mut game, &mut rng);
    assert_eq!(game.session.state, GameState::Playing);
    assert_eq!(game.session.countdown.remaining_ms, GAME_TIME_MS);
    assert_eq!(game.registry.counts, vec![1; NUM_FACTIONS as usize]);
    assert_eq!(game.agent_count(), expected);
    // the ranking snapshot of the finished round is discarded
    assert!(game.session.ranking.is_empty());
}

#[test]
fn spawn_is_at_rest_within_regions() {
    let mut rng = rand::thread_rng();
    let game = mgame::game::new_game(&mut rng);
    let region = mgame::config::ACTION_REGION;
    let player_region = mgame::config::PLAYER_REGION;
    for (i, a) in game.store.agents.iter().enumerate() {
        assert_eq!(a.acc, V2 { x: 0, y: 0 });
        let speed = if i < ACTOR_COUNT { WANDER_SPEED } else { PAWN_SPEED };
        assert!(a.vel.x * a.vel.x + a.vel.y * a.vel.y <= speed * speed);
        let bound = if i == game.store.agents.len() - 1 { player_region } else { region };
        assert!(-bound <= a.pos.x && a.pos.x <= bound);
        assert!(-bound <= a.pos.y && a.pos.y <= bound);
    }
}

#[test]
fn spawn_scatters_wanderers() {
    let mut rng = rand::thread_rng();
    let game = mgame::game::new_game(&mut rng);
    let p0 = game.store.agents[0].pos;
    // the spawn draws positions across the action region; identical
    // positions for two thousand wanderers would mean the draws are broken
    assert!(game.store.agents.iter().take(ACTOR_COUNT).any(|a| a.pos != p0));
}

#[test]
fn display_interface_reports_faction_colors() {
    let mut rng = rand::thread_rng();
    let game = mgame::game::new_game(&mut rng);
    // wanderers start unaffiliated: white
    assert_eq!(game.agent_display_color(0), Rgb { r: 255, g: 255, b: 255 });
    // the last agent is the player's leader: red
    let last = game.agent_count() - 1;
    assert_eq!(game.agent_display_color(last), Rgb { r: 255, g: 0, b: 0 });
    assert_eq!(game.faction_display_name(0), "Player");
    assert_eq!(game.population_count(0), 1);
}
