//! The simulation context: the agent store, the faction registry and the
//! session, driven one tick at a time by the host scheduler.

use vstd::prelude::*;
use crate::agent::{Agent, AgentKind, AgentStore, Controller};
use crate::config::{GAME_TIME_MS, NUM_FACTIONS, PAWN_SPEED};
use crate::conversion::{
    apply_conversions, apply_upto, conversion_decision, decide_conversions, ConvertState,
};
use crate::flocking::{flocked_agent, update_flocking};
use crate::movement::{moved_agent, update_movement};
use crate::registry::{FactionRegistry, Rgb};
use crate::separation::{apply_separation, decide_separation, repulsed_agent, repulsion_of};
use crate::session::{rank_leq, registry_rows, tick_session, GameState, Session};
use crate::setup::{seed_registry, setup_round, spawned_layout};
use crate::spatial::SpatialIndex;
use crate::steering::{apply_player_input, update_opponent_directions, update_wanderer_directions};
use crate::vec2::{in_box, spec_scale_to_len, V2};

verus! {

/// One play session's state, passed explicitly into every update.
pub struct Game {
    pub store: AgentStore,
    pub registry: FactionRegistry,
    pub session: Session,
}

impl Game {
    /// The simulation invariant: a well-formed store, a well-formed
    /// registry, and registry counts coherent with the store — which is
    /// population conservation, tick after tick.
    pub open spec fn wf(self) -> bool {
        &&& self.store.wf()
        &&& self.registry.wf()
        &&& self.registry.coherent(self.store.agents@)
    }

    pub fn agent_count(&self) -> (r: usize)
        ensures
            r == self.store.agents@.len(),
    {
        self.store.agents.len()
    }

    /// The presentation interface: an agent's current position.
    pub fn agent_position(&self, i: usize) -> (r: V2)
        requires
            i < self.store.agents@.len(),
        ensures
            r == self.store.agents@[i as int].pos,
    {
        self.store.agents[i].pos
    }

    /// The presentation interface: an agent's current display color, its
    /// faction's registry color (the neutral color for the unaffiliated).
    pub fn agent_display_color(&self, i: usize) -> (r: Rgb)
        requires
            self.wf(),
            i < self.store.agents@.len(),
        ensures
            r == if self.store.agents@[i as int].faction == -1 {
                self.registry.neutral_color
            } else {
                self.registry.colors@[self.store.agents@[i as int].faction as int]
            },
    {
        let f = self.store.agents[i].faction;
        if f == -1 {
            self.registry.neutral_color
        } else {
            self.registry.colors[f as usize]
        }
    }

    /// The scoreboard interface: a faction's live population count.
    pub fn population_count(&self, f: i32) -> (r: u32)
        requires
            self.wf(),
            0 <= f < NUM_FACTIONS,
        ensures
            r == self.registry.counts@[f as int],
    {
        self.registry.counts[f as usize]
    }

    /// The scoreboard interface: a faction's display name.
    pub fn faction_display_name(&self, f: i32) -> (r: &str)
        requires
            self.wf(),
            0 <= f < NUM_FACTIONS,
        ensures
            r@ == self.registry.names@[f as int]@,
    {
        self.registry.names[f as usize].as_str()
    }
}

/// Population conservation at the game level: in any well-formed game —
/// and every tick keeps the game well-formed — the tracked population
/// counts sum to the number of affiliated agents in the store (and no
/// count is negative, the counts being unsigned).
pub proof fn lemma_game_population_conservation(g: Game)
    requires
        g.wf(),
    ensures
        crate::registry::sum_counts(g.registry.counts@, NUM_FACTIONS as int)
            == crate::registry::count_affiliated(g.store.agents@),
{
    assert(forall|i: int|
        0 <= i < g.store.agents@.len() ==> -1 <= (#[trigger] g.store.agents@[i]).faction
            < NUM_FACTIONS) by {
        assert(forall|i: int|
            0 <= i < g.store.agents@.len() ==> crate::agent::agent_wf(
                #[trigger] g.store.agents@[i],
            ));
    }
    crate::registry::lemma_population_conservation(g.registry, g.store.agents@);
}

/// The positions the spatial index serves for one tick: the store's, as
/// settled at the tick's start.
pub open spec fn positions_of(agents: Seq<Agent>) -> Seq<V2> {
    Seq::new(agents.len(), |i: int| agents[i].pos)
}

/// The store after the input collaborator's commanded direction: with one,
/// the player-controlled leader's velocity becomes the direction rescaled
/// to the leader speed; without, nothing changes.
pub open spec fn input_applied(agents: Seq<Agent>, input: Option<V2>) -> Seq<Agent> {
    match input {
        Option::None => agents,
        Option::Some(d) => Seq::new(
            agents.len(),
            |i: int|
                if agents[i].controller == Controller::PlayerInput {
                    Agent { vel: spec_scale_to_len(d, PAWN_SPEED as int), ..agents[i] }
                } else {
                    agents[i]
                },
        ),
    }
}

/// What the two random-walk passes can make of the store, whatever the
/// draws: an agent under random-walk control (an unaffiliated wanderer, or
/// a leader not steered by the player) keeps everything but possibly its
/// velocity, which stays within the leader speed cap; every other agent is
/// untouched.
pub open spec fn jitter_outcome(agents: Seq<Agent>, jit: Seq<Agent>) -> bool {
    &&& jit.len() == agents.len()
    &&& forall|i: int|
        0 <= i < agents.len() ==> {
            let a = #[trigger] agents[i];
            if (a.kind != AgentKind::Pawn && a.faction == -1) || (a.kind == AgentKind::Pawn
                && a.controller == Controller::RandomWalk) {
                jit[i] == a || (jit[i] == (Agent { vel: jit[i].vel, ..a }) && in_box(
                    jit[i].vel,
                    PAWN_SPEED as int,
                ))
            } else {
                jit[i] == a
            }
        }
}

/// The movement step over the whole store.
pub open spec fn moved_seq(agents: Seq<Agent>) -> Seq<Agent> {
    Seq::new(agents.len(), |i: int| moved_agent(agents[i]))
}

/// The flocking step over the whole store.
pub open spec fn flocked_seq(agents: Seq<Agent>) -> Seq<Agent> {
    Seq::new(agents.len(), |i: int| flocked_agent(agents, i))
}

/// The conversion read phase over the whole store.
pub open spec fn tick_decisions(agents: Seq<Agent>, pts: Seq<V2>) -> Seq<Option<i32>> {
    Seq::new(agents.len(), |i: int| conversion_decision(agents, pts, i))
}

/// The separation read and apply passes over the whole store.
pub open spec fn separated_seq(agents: Seq<Agent>, pts: Seq<V2>) -> Seq<Agent> {
    Seq::new(agents.len(), |i: int| repulsed_agent(agents[i], repulsion_of(agents, pts, i)))
}

/// The deterministic tail of one tick, after the controller updates:
/// movement, flocking, the two conversion phases, then separation, all
/// querying the spatial index positions `pts` settled at the tick's start.
pub open spec fn tick_pipeline(jit: Seq<Agent>, pts: Seq<V2>, counts: Seq<u32>) -> ConvertState {
    let settled = flocked_seq(moved_seq(jit));
    let cv = apply_upto(settled, counts, tick_decisions(settled, pts), settled.len() as int);
    ConvertState {
        agents: separated_seq(cv.agents, pts),
        counts: cv.counts,
        player_eliminated: cv.player_eliminated,
    }
}

/// What one Playing tick does, in full.  The countdown loses the elapsed
/// time.  For some outcome `jit` of the random-walk draws on the
/// input-updated store, the store and the registry counts step to the
/// deterministic pipeline's result on `jit`, and the session ends exactly
/// when that pipeline eliminated the player's leader or the countdown ran
/// out — snapshotting the final ranking at that moment.
pub open spec fn playing_tick_outcome(g0: Game, g1: Game, input: Option<V2>, dt_ms: u64) -> bool {
    let left = if g0.session.countdown.remaining_ms >= dt_ms {
        g0.session.countdown.remaining_ms - dt_ms
    } else {
        0
    };
    &&& g1.store.agents@.len() == g0.store.agents@.len()
    &&& g1.session.countdown.remaining_ms == left
    &&& g1.registry.names@ == g0.registry.names@
    &&& g1.registry.colors@ == g0.registry.colors@
    &&& g1.registry.neutral_color == g0.registry.neutral_color
    &&& exists|jit: Seq<Agent>| {
        let piped = tick_pipeline(jit, positions_of(g0.store.agents@), g0.registry.counts@);
        &&& #[trigger] jitter_outcome(input_applied(g0.store.agents@, input), jit)
        &&& g1.store.agents@ == piped.agents
        &&& g1.registry.counts@ == piped.counts
        &&& g1.session.state == (if piped.player_eliminated || left == 0 {
            GameState::GameOver
        } else {
            GameState::Playing
        })
        &&& ((piped.player_eliminated || left == 0) ==> g1.session.ranking@ == registry_rows(
            g1.registry,
        ).sort_by(rank_leq()))
        &&& (!(piped.player_eliminated || left == 0) ==> g1.session.ranking@
            == g0.session.ranking@)
    }
}

/// A fresh game: seeded registry, freshly spawned population, full
/// countdown, playing.
pub fn new_game(rng: &mut rand::rngs::ThreadRng) -> (g: Game)
    ensures
        g.wf(),
        g.registry.seeded(),
        spawned_layout(g.store.agents@),
        g.session.state == GameState::Playing,
        g.session.countdown.remaining_ms == GAME_TIME_MS,
        g.session.ranking@ == Seq::<(i32, u32)>::empty(),
{
    let registry = seed_registry();
    let store = setup_round(rng);
    Game { store, registry, session: Session::begin() }
}

/// The explicit replay transition: discards all agents, reseeds the
/// registry's populations, respawns the initial population and restarts
/// the countdown.  Only a finished round can be replayed.
pub fn replay(game: &mut Game, rng: &mut rand::rngs::ThreadRng)
    requires
        old(game).session.state == GameState::GameOver,
    ensures
        final(game).wf(),
        final(game).registry.seeded(),
        spawned_layout(final(game).store.agents@),
        final(game).session.state == GameState::Playing,
        final(game).session.countdown.remaining_ms == GAME_TIME_MS,
        final(game).session.ranking@ == Seq::<(i32, u32)>::empty(),
{
    game.registry = seed_registry();
    game.store = setup_round(rng);
    game.session = Session::begin();
}

/// One tick while playing: refresh the spatial index from the settled
/// positions, run the controller updates (player input and random walks),
/// then movement, flocking, conversion and separation, and let the session
/// controller check the countdown and the player's fate.  A finished round
/// ignores ticks until replayed.
pub fn run_tick(game: &mut Game, rng: &mut rand::rngs::ThreadRng, input: Option<V2>, dt_ms: u64)
    requires
        old(game).wf(),
        input matches Option::Some(d) ==> in_box(d, 2_000_000_000),
    ensures
        final(game).wf(),
        old(game).session.state == GameState::GameOver ==> final(game).store == old(game).store
            && final(game).registry == old(game).registry && final(game).session == old(
            game,
        ).session,
        old(game).session.state == GameState::Playing ==> playing_tick_outcome(
            *old(game),
            *final(game),
            input,
            dt_ms,
        ),
{
    if matches!(game.session.state, GameState::GameOver) {
        return ;
    }
    let ghost sess0 = game.session;
    let index = SpatialIndex::rebuild(&game.store);
    let ghost s0 = game.store.agents@;
    proof {
        assert(index.pts@ =~= positions_of(s0));
    }
    apply_player_input(&mut game.store, input);
    let ghost s1 = game.store.agents@;
    proof {
        assert(forall|i: int| 0 <= i < s1.len() ==> s0[i].faction == (#[trigger] s1[i]).faction);
        assert(s1 =~= input_applied(s0, input));
    }
    update_wanderer_directions(&mut game.store, rng);
    let ghost s2 = game.store.agents@;
    proof {
        assert(forall|i: int| 0 <= i < s2.len() ==> s1[i].faction == (#[trigger] s2[i]).faction);
    }
    update_opponent_directions(&mut game.store, rng);
    let ghost s3 = game.store.agents@;
    proof {
        assert(forall|i: int| 0 <= i < s3.len() ==> s2[i].faction == (#[trigger] s3[i]).faction);
        // the two random-walk passes each touch only their own group's
        // velocities, so together they are one jitter outcome
        assert forall|i: int|
            0 <= i < s1.len() implies ({
            let a = #[trigger] s1[i];
            if (a.kind != AgentKind::Pawn && a.faction == -1) || (a.kind == AgentKind::Pawn
                && a.controller == Controller::RandomWalk) {
                s3[i] == a || (s3[i] == (Agent { vel: s3[i].vel, ..a }) && in_box(
                    s3[i].vel,
                    PAWN_SPEED as int,
                ))
            } else {
                s3[i] == a
            }
        }) by {
            let a = s1[i];
            assert(s2[i] == a || s2[i] == (Agent { vel: s2[i].vel, ..a }));
            assert(s3[i] == s2[i] || s3[i] == (Agent { vel: s3[i].vel, ..s2[i] }));
            assert(crate::agent::agent_wf(s3[i]));
            if a.kind != AgentKind::Pawn && a.faction == -1 {
                assert(s2[i].kind == a.kind && s2[i].controller == a.controller);
                assert(s3[i] == s2[i]);
            } else if a.kind == AgentKind::Pawn && a.controller == Controller::RandomWalk {
                assert(s2[i] == a);
            } else {
                assert(s2[i] == a);
                assert(s3[i] == s2[i]);
            }
        }
        assert(jitter_outcome(s1, s3));
    }
    update_movement(&mut game.store);
    let ghost s4 = game.store.agents@;
    proof {
        assert(forall|i: int| 0 <= i < s4.len() ==> s3[i].faction == (#[trigger] s4[i]).faction);
        assert(s4 =~= moved_seq(s3));
    }
    update_flocking(&mut game.store);
    let ghost s5 = game.store.agents@;
    proof {
        assert(forall|i: int| 0 <= i < s5.len() ==> s4[i].faction == (#[trigger] s5[i]).faction);
        assert(s5 =~= flocked_seq(s4));
        // the controller, movement and flocking passes touch no faction, so
        // the registry stays coherent with the store
        assert forall|f: int|
            0 <= f < NUM_FACTIONS implies game.registry.counts@[f] == crate::registry::count_faction(
            s5,
            f,
        ) by {
            crate::registry::lemma_count_faction_pointwise(s0, s5, f);
        }
    }
    let decisions = decide_conversions(&game.store, &index);
    proof {
        assert(decisions@ =~= tick_decisions(s5, index.pts@));
    }
    let player_eliminated = apply_conversions(&mut game.store, &mut game.registry, &decisions);
    let repulsions = decide_separation(&game.store, &index);
    let ghost s6 = game.store.agents@;
    apply_separation(&mut game.store, &repulsions);
    let ghost s7 = game.store.agents@;
    proof {
        assert(forall|i: int| 0 <= i < s7.len() ==> s6[i].faction == (#[trigger] s7[i]).faction);
        // the separation pass touches only accelerations
        assert forall|f: int|
            0 <= f < NUM_FACTIONS implies game.registry.counts@[f] == crate::registry::count_faction(
            s7,
            f,
        ) by {
            crate::registry::lemma_count_faction_pointwise(s6, s7, f);
        }
        assert(s7 =~= separated_seq(s6, index.pts@));
    }
    tick_session(&mut game.session, &game.registry, player_eliminated, dt_ms);
    proof {
        let g0 = *old(game);
        let pts0 = positions_of(s0);
        let piped = tick_pipeline(s3, pts0, g0.registry.counts@);
        // the deterministic tail of the pipeline, stitched stage by stage
        assert(flocked_seq(moved_seq(s3)) == s5);
        assert(tick_decisions(s5, pts0) == decisions@);
        let cv = apply_upto(s5, g0.registry.counts@, decisions@, decisions@.len() as int);
        assert(cv.agents == s6 && cv.counts == game.registry.counts@ && cv.player_eliminated
            == player_eliminated);
        assert(piped.agents == s7 && piped.counts == game.registry.counts@
            && piped.player_eliminated == player_eliminated);
        assert(jitter_outcome(input_applied(g0.store.agents@, input), s3));
        assert(playing_tick_outcome(g0, *game, input, dt_ms));
    }
}

} // verus!
