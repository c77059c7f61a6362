//! The authoritative table of agent state.

use vstd::prelude::*;
use crate::config::{ACC_LIMIT, COORD_LIMIT, NUM_FACTIONS, PAWN_SPEED};
use crate::vec2::{in_box, V2};

verus! {

/// Whether an agent anchors a faction (a leader) or is rank and file.
#[derive(Clone, Copy, PartialEq, Eq, Structural, Debug)]
pub enum AgentKind {
    Wanderer,
    Pawn,
}

/// Which input source updates an agent's velocity.
#[derive(Clone, Copy, PartialEq, Eq, Structural, Debug)]
pub enum Controller {
    Idle,
    PlayerInput,
    RandomWalk,
}

/// One simulated mobile entity.
#[derive(Clone, Copy, PartialEq, Eq, Structural, Debug)]
pub struct Agent {
    pub pos: V2,
    pub vel: V2,
    pub acc: V2,
    /// `-1` is unaffiliated; `0` is the player's faction; positive ids are
    /// opponent factions.
    pub faction: i32,
    pub kind: AgentKind,
    pub controller: Controller,
}

/// Well-formedness of one agent: coordinates inside the arena, velocity and
/// acceleration inside their saturation bounds, the faction id known to the
/// registry, and every leader affiliated.
pub open spec fn agent_wf(a: Agent) -> bool {
    &&& in_box(a.pos, COORD_LIMIT as int)
    &&& in_box(a.vel, PAWN_SPEED as int)
    &&& in_box(a.acc, ACC_LIMIT as int)
    &&& -1 <= a.faction < NUM_FACTIONS
    &&& a.kind == AgentKind::Pawn ==> a.faction >= 0
}

/// The authoritative store: agent ids are indices into `agents`.
pub struct AgentStore {
    pub agents: Vec<Agent>,
}

impl AgentStore {
    /// Every agent is well-formed, and the population is within the capacity
    /// a single-process spatial index can serve.
    pub open spec fn wf(self) -> bool {
        &&& forall|i: int| 0 <= i < self.agents.len() ==> agent_wf(#[trigger] self.agents[i])
        &&& self.agents.len() <= 100_000_000
    }

}

} // verus!
