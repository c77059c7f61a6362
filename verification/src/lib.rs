//! Territorial-control agent simulation: a population of mobile agents in a
//! bounded 2D arena, led by faction leaders, recruited by local majority vote,
//! driven one tick at a time by a host scheduler.

pub mod agent;
pub mod config;
pub mod conversion;
pub mod flocking;
pub mod game;
pub mod movement;
pub mod registry;
pub mod rng;
pub mod separation;
pub mod session;
pub mod setup;
pub mod spatial;
pub mod steering;
pub mod vec2;
