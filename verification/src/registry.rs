//! The faction registry: display color, display name and live population
//! count per faction, and its coherence with the agent store.

use vstd::prelude::*;
use crate::agent::Agent;
use crate::config::NUM_FACTIONS;

verus! {

/// A display color, 8 bits per channel.
#[derive(Clone, Copy, PartialEq, Eq, Structural, Debug)]
pub struct Rgb {
    pub r: u8,
    pub g: u8,
    pub b: u8,
}

/// The display color of a faction id (`-1` is the unaffiliated color; ids
/// outside the configured range fall back to black).
pub open spec fn spec_color_by_faction(faction: int) -> Rgb {
    if faction == -1 {
        Rgb { r: 255, g: 255, b: 255 }  // white
    } else if faction == 0 {
        Rgb { r: 255, g: 0, b: 0 }  // red
    } else if faction == 1 {
        Rgb { r: 240, g: 255, b: 255 }  // azure
    } else if faction == 2 {
        Rgb { r: 245, g: 245, b: 220 }  // beige
    } else if faction == 3 {
        Rgb { r: 255, g: 215, b: 0 }  // gold
    } else if faction == 4 {
        Rgb { r: 0, g: 255, b: 0 }  // green
    } else if faction == 5 {
        Rgb { r: 0, g: 255, b: 255 }  // cyan
    } else {
        Rgb { r: 0, g: 0, b: 0 }  // black
    }
}

pub fn get_color_by_faction(faction: i32) -> (r: Rgb)
    ensures
        r == spec_color_by_faction(faction as int),
{
    match faction {
        -1 => Rgb { r: 255, g: 255, b: 255 },
        0 => Rgb { r: 255, g: 0, b: 0 },
        1 => Rgb { r: 240, g: 255, b: 255 },
        2 => Rgb { r: 245, g: 245, b: 220 },
        3 => Rgb { r: 255, g: 215, b: 0 },
        4 => Rgb { r: 0, g: 255, b: 0 },
        5 => Rgb { r: 0, g: 255, b: 255 },
        _ => Rgb { r: 0, g: 0, b: 0 },
    }
}

/// Number of agents in `s` whose faction is `f`.
pub open spec fn count_faction(s: Seq<Agent>, f: int) -> nat
    decreases s.len(),
{
    if s.len() == 0 {
        0
    } else {
        count_faction(s.drop_last(), f) + if s.last().faction == f {
            1nat
        } else {
            0nat
        }
    }
}

/// Number of agents in `s` with a faction (faction other than `-1`).
pub open spec fn count_affiliated(s: Seq<Agent>) -> nat
    decreases s.len(),
{
    if s.len() == 0 {
        0
    } else {
        count_affiliated(s.drop_last()) + if s.last().faction >= 0 {
            1nat
        } else {
            0nat
        }
    }
}

/// Sum of the first `n` tracked population counts.
pub open spec fn sum_counts(counts: Seq<u32>, n: int) -> int
    decreases n,
{
    if n <= 0 {
        0
    } else {
        sum_counts(counts, n - 1) + counts[n - 1]
    }
}

/// Sum over the first `n` faction ids of the number of agents holding each.
pub open spec fn sum_count_faction(s: Seq<Agent>, n: int) -> int
    decreases n,
{
    if n <= 0 {
        0
    } else {
        sum_count_faction(s, n - 1) + count_faction(s, n - 1)
    }
}

pub proof fn lemma_count_faction_push(s: Seq<Agent>, a: Agent, f: int)
    ensures
        count_faction(s.push(a), f) == count_faction(s, f) + if a.faction == f {
            1int
        } else {
            0int
        },
{
    assert(s.push(a).drop_last() =~= s);
}

pub proof fn lemma_count_affiliated_push(s: Seq<Agent>, a: Agent)
    ensures
        count_affiliated(s.push(a)) == count_affiliated(s) + if a.faction >= 0 {
            1int
        } else {
            0int
        },
{
    assert(s.push(a).drop_last() =~= s);
}

/// Replacing the agent at `i` moves one unit of count from its old faction
/// to its new one.
pub proof fn lemma_count_faction_update(s: Seq<Agent>, i: int, a: Agent, f: int)
    requires
        0 <= i < s.len(),
    ensures
        count_faction(s.update(i, a), f) == count_faction(s, f) + (if a.faction == f {
            1int
        } else {
            0int
        }) - (if s[i].faction == f {
            1int
        } else {
            0int
        }),
    decreases s.len(),
{
    let t = s.update(i, a);
    if i == s.len() - 1 {
        assert(t.drop_last() =~= s.drop_last());
        assert(t.last() == a);
    } else {
        assert(t.drop_last() =~= s.drop_last().update(i, a));
        assert(t.last() == s.last());
        lemma_count_faction_update(s.drop_last(), i, a, f);
    }
}

pub proof fn lemma_count_affiliated_update(s: Seq<Agent>, i: int, a: Agent)
    requires
        0 <= i < s.len(),
    ensures
        count_affiliated(s.update(i, a)) == count_affiliated(s) + (if a.faction >= 0 {
            1int
        } else {
            0int
        }) - (if s[i].faction >= 0 {
            1int
        } else {
            0int
        }),
    decreases s.len(),
{
    let t = s.update(i, a);
    if i == s.len() - 1 {
        assert(t.drop_last() =~= s.drop_last());
        assert(t.last() == a);
    } else {
        assert(t.drop_last() =~= s.drop_last().update(i, a));
        assert(t.last() == s.last());
        lemma_count_affiliated_update(s.drop_last(), i, a);
    }
}

/// The counts depend on the faction column alone: two stores whose agents
/// hold the same factions pointwise have the same counts.
pub proof fn lemma_count_faction_pointwise(s1: Seq<Agent>, s2: Seq<Agent>, f: int)
    requires
        s1.len() == s2.len(),
        forall|i: int| 0 <= i < s1.len() ==> s1[i].faction == (#[trigger] s2[i]).faction,
    ensures
        count_faction(s1, f) == count_faction(s2, f),
    decreases s1.len(),
{
    if s1.len() > 0 {
        assert(forall|i: int|
            0 <= i < s1.drop_last().len() ==> s1.drop_last()[i].faction == (#[trigger] s2.drop_last()[i]).faction);
        lemma_count_faction_pointwise(s1.drop_last(), s2.drop_last(), f);
        assert(s1.last().faction == s2.last().faction);
    }
}

/// An agent holding faction `f` witnesses a positive count.
pub proof fn lemma_count_faction_pos(s: Seq<Agent>, i: int, f: int)
    requires
        0 <= i < s.len(),
        s[i].faction == f,
    ensures
        count_faction(s, f) >= 1,
    decreases s.len(),
{
    if i == s.len() - 1 {
    } else {
        assert(s.drop_last()[i] == s[i]);
        lemma_count_faction_pos(s.drop_last(), i, f);
    }
}

pub proof fn lemma_count_faction_le_len(s: Seq<Agent>, f: int)
    ensures
        count_faction(s, f) <= s.len(),
    decreases s.len(),
{
    if s.len() > 0 {
        lemma_count_faction_le_len(s.drop_last(), f);
    }
}

/// For one agent: summing its indicator over the faction ids `0..n` gives 1
/// exactly when its faction lies in that range.
proof fn lemma_sum_step(s: Seq<Agent>, n: int)
    requires
        s.len() > 0,
    ensures
        sum_count_faction(s, n) == sum_count_faction(s.drop_last(), n) + if 0 <= s.last().faction
            < n {
            1int
        } else {
            0int
        },
    decreases n,
{
    if n > 0 {
        lemma_sum_step(s, n - 1);
    }
}

/// Summing the per-faction counts over all tracked ids counts each
/// affiliated agent exactly once.
pub proof fn lemma_sum_count_faction_is_affiliated(s: Seq<Agent>, n: int)
    requires
        forall|i: int| 0 <= i < s.len() ==> -1 <= (#[trigger] s[i]).faction < n,
    ensures
        sum_count_faction(s, n) == count_affiliated(s),
    decreases s.len(),
{
    if s.len() == 0 {
        lemma_sum_count_faction_empty(s, n);
    } else {
        assert(forall|i: int|
            0 <= i < s.drop_last().len() ==> -1 <= (#[trigger] s.drop_last()[i]).faction < n);
        lemma_sum_count_faction_is_affiliated(s.drop_last(), n);
        lemma_sum_step(s, n);
        assert(-1 <= s[s.len() - 1].faction < n);
    }
}

proof fn lemma_sum_count_faction_empty(s: Seq<Agent>, n: int)
    requires
        s.len() == 0,
    ensures
        sum_count_faction(s, n) == 0,
    decreases n,
{
    if n > 0 {
        lemma_sum_count_faction_empty(s, n - 1);
    }
}

/// Mapping from faction id to display color, display name, and live
/// population count.  Index `f` of each column holds faction `f`'s entry;
/// the unaffiliated pseudo-faction has a color but no tracked count.
pub struct FactionRegistry {
    pub counts: Vec<u32>,
    pub names: Vec<String>,
    pub colors: Vec<Rgb>,
    pub neutral_color: Rgb,
}

impl FactionRegistry {
    /// The registry has one entry per tracked faction.
    pub open spec fn wf(self) -> bool {
        &&& self.counts.len() == NUM_FACTIONS
        &&& self.names.len() == NUM_FACTIONS
        &&& self.colors.len() == NUM_FACTIONS
    }

    /// Every tracked count equals the number of agents holding that faction.
    pub open spec fn coherent(self, s: Seq<Agent>) -> bool {
        forall|f: int| 0 <= f < NUM_FACTIONS ==> self.counts[f] == count_faction(s, f)
    }

    /// The seed state: every faction starts with a population of 1 (its
    /// leader).
    pub open spec fn seeded(self) -> bool {
        forall|f: int| 0 <= f < NUM_FACTIONS ==> self.counts[f] == 1
    }
}

/// Population conservation: when the registry is coherent with the store,
/// the tracked counts sum to the number of affiliated agents (and, being
/// unsigned, no count is negative).
pub proof fn lemma_population_conservation(reg: FactionRegistry, s: Seq<Agent>)
    requires
        reg.wf(),
        reg.coherent(s),
        forall|i: int| 0 <= i < s.len() ==> -1 <= (#[trigger] s[i]).faction < NUM_FACTIONS,
    ensures
        sum_counts(reg.counts@, NUM_FACTIONS as int) == count_affiliated(s),
{
    lemma_sum_count_faction_is_affiliated(s, NUM_FACTIONS as int);
    lemma_sum_counts_eq(reg, s, NUM_FACTIONS as int);
}

proof fn lemma_sum_counts_eq(reg: FactionRegistry, s: Seq<Agent>, n: int)
    requires
        reg.wf(),
        reg.coherent(s),
        n <= NUM_FACTIONS,
    ensures
        sum_counts(reg.counts@, n) == sum_count_faction(s, n),
    decreases n,
{
    if n > 0 {
        lemma_sum_counts_eq(reg, s, n - 1);
    }
}

} // verus!
