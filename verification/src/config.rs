//! Tunable numeric constants of the simulation.
//!
//! Distances and speeds are fixed-point world coordinates (see `vec2::SCALE`:
//! one world unit is 1_000_000 coordinate steps).  The dimensionless gain
//! factors of the update rules are kept as integer ratios.

use vstd::prelude::*;

verus! {

/// Coordinate magnitude that commanded directions keep (one world unit).
pub const OPPONENT_MOVE_SCALE: i64 = 1_000_000;

/// Speed of a faction leader, per tick.
pub const PAWN_SPEED: i64 = 20_000;

/// Speed of an unaffiliated wanderer, per tick.
pub const WANDER_SPEED: i64 = 5_000;

/// Radius of the conversion vote neighborhood.
pub const NEIGHBOR_THRESHOLD: i64 = 500_000;

/// Two same-faction agents closer than this repel each other.
pub const REPULSION_THRESHOLD: i64 = 200_000;

/// Repulsion gain: acceleration gains `1 / REPULSION_DIV` of the unit
/// repulsion direction per tick.
pub const REPULSION_DIV: i64 = 1_000;

/// Alignment gain: acceleration gains `1 / ALIGN_DIV` of the velocity gap to
/// the leader per tick.
pub const ALIGN_DIV: i64 = 100;

/// Attraction gain: acceleration gains `ATTRACT_NUM / ATTRACT_DIV` of the
/// offset toward the leader per tick.
pub const ATTRACT_NUM: i64 = 3;

pub const ATTRACT_DIV: i64 = 10_000;

/// Number of unaffiliated wanderers spawned at round start.
pub const ACTOR_COUNT: usize = 2000;

/// Number of opponent factions (their ids are `1 ..= OPPONENT_COUNT`).
pub const OPPONENT_COUNT: i32 = 5;

/// Number of factions with a tracked population count (the player's faction
/// `0` plus the opponents).
pub const NUM_FACTIONS: i32 = 6;

/// Half-extent of the square region agents are spawned in.
pub const ACTION_REGION: i64 = 20_000_000;

/// Half-extent of the square region the player's leader is spawned in.
pub const PLAYER_REGION: i64 = 5_000_000;

/// Round duration in milliseconds.
pub const GAME_TIME_MS: u64 = 30_000;

/// Half-extent of the arena: every coordinate is clamped to this magnitude.
pub const COORD_LIMIT: i64 = 1_000_000_000;

/// Acceleration components saturate at this magnitude.  The steady state of
/// the update rules stays well below it, so the bound only serves the arena
/// model, never the dynamics.
pub const ACC_LIMIT: i64 = 2_000_000;

/// A random-walk agent redraws its direction when a draw from
/// `[0, DIRECTION_DRAW_BOUND)` falls below `DIRECTION_CHANGE_THRESHOLD`
/// (probability 1/100).
pub const DIRECTION_DRAW_BOUND: i64 = 10_000;

pub const DIRECTION_CHANGE_THRESHOLD: i64 = 100;

} // verus!
