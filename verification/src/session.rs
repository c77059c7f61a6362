//! The session controller: the Playing/GameOver state machine, the
//! countdown timer, and the final ranking snapshot.

use vstd::prelude::*;
use crate::config::{GAME_TIME_MS, NUM_FACTIONS};
use crate::registry::FactionRegistry;

verus! {

/// The round's state: the updaters run while `Playing`; `GameOver` lasts
/// until an explicit replay.
#[derive(Clone, Copy, PartialEq, Eq, Structural, Debug)]
pub enum GameState {
    Playing,
    GameOver,
}

/// The round countdown, in milliseconds remaining.
#[derive(Clone, Copy, PartialEq, Eq, Structural, Debug)]
pub struct Countdown {
    pub remaining_ms: u64,
}

/// One ranking row orders before another when its population count is
/// larger, equal counts broken by the lower faction id.
pub open spec fn rank_le(a: (i32, u32), b: (i32, u32)) -> bool {
    a.1 > b.1 || (a.1 == b.1 && a.0 <= b.0)
}

/// The ranking order as a relation value.
pub open spec fn rank_leq() -> spec_fn((i32, u32), (i32, u32)) -> bool {
    |a: (i32, u32), b: (i32, u32)| rank_le(a, b)
}

/// The registry's rows, one `(faction id, population count)` per tracked
/// faction, in id order.
pub open spec fn registry_rows(reg: FactionRegistry) -> Seq<(i32, u32)> {
    Seq::new(NUM_FACTIONS as nat, |f: int| (f as i32, reg.counts[f]))
}

/// The ranking order is a total ordering.
pub proof fn lemma_rank_total_ordering()
    ensures
        vstd::relations::total_ordering(rank_leq()),
{
}

fn rank_le_exec(a: (i32, u32), b: (i32, u32)) -> (r: bool)
    ensures
        r == rank_le(a, b),
{
    a.1 > b.1 || (a.1 == b.1 && a.0 <= b.0)
}

/// Swapping two positions of a sequence keeps its multiset of elements.
proof fn lemma_swap_multiset(s: Seq<(i32, u32)>, i: int, j: int)
    requires
        0 <= i < s.len(),
        0 <= j < s.len(),
        i != j,
    ensures
        s.update(i, s[j]).update(j, s[i]).to_multiset() == s.to_multiset(),
{
    broadcast use vstd::seq_lib::to_multiset_update;
    broadcast use vstd::seq_lib::group_to_multiset_ensures;

    let s1 = s.update(i, s[j]);
    assert(s.to_multiset().contains(s[i]));
    assert(s1.to_multiset().contains(s1[j]));
    assert(s1.update(j, s[i]).to_multiset() =~= s.to_multiset());
}

/// The scoreboard ranking: the registry's rows sorted descending by
/// population count, equal counts broken by the lower faction id.
pub fn ranking_of(reg: &FactionRegistry) -> (res: Vec<(i32, u32)>)
    requires
        reg.wf(),
    ensures
        res@ == registry_rows(*reg).sort_by(rank_leq()),
        res@.len() == NUM_FACTIONS,
        vstd::relations::sorted_by(res@, rank_leq()),
        res@.to_multiset() == registry_rows(*reg).to_multiset(),
{
    let ghost rows0 = registry_rows(*reg);
    let mut rows: Vec<(i32, u32)> = Vec::new();
    let mut f: i32 = 0;
    while f < NUM_FACTIONS
        invariant
            0 <= f <= NUM_FACTIONS,
            reg.wf(),
            rows@.len() == f,
            forall|g: int| 0 <= g < f ==> rows@[g] == (g as i32, reg.counts@[g]),
        decreases NUM_FACTIONS - f,
    {
        rows.push((f, reg.counts[f as usize]));
        f = f + 1;
    }
    proof {
        assert(rows@ =~= rows0);
    }
    let ghost leq = rank_leq();
    let n = rows.len();
    let mut i: usize = 1;
    while i < n
        invariant
            1 <= i <= n || n == 0,
            n == rows@.len(),
            rows@.to_multiset() == rows0.to_multiset(),
            forall|p: int, q: int| 0 <= p < q < i ==> rank_le(#[trigger] rows@[p], #[trigger] rows@[q]),
        decreases n - i,
    {
        let mut j: usize = i;
        while j > 0 && !rank_le_exec(rows[j - 1], rows[j])
            invariant
                0 <= j <= i < n,
                n == rows@.len(),
                rows@.to_multiset() == rows0.to_multiset(),
                forall|p: int, q: int|
                    0 <= p < q <= i && p != j && q != j ==> rank_le(
                        #[trigger] rows@[p],
                        #[trigger] rows@[q],
                    ),
                forall|q: int| j < q <= i ==> rank_le(rows@[j as int], #[trigger] rows@[q]),
            decreases j,
        {
            let ghost before = rows@;
            let a = rows[j - 1];
            let b = rows[j];
            rows.set(j - 1, b);
            rows.set(j, a);
            proof {
                lemma_swap_multiset(before, j - 1, j as int);
                assert(rows@ =~= before.update(j - 1, before[j as int]).update(
                    j as int,
                    before[j - 1],
                ));
            }
            j = j - 1;
        }
        i = i + 1;
    }
    proof {
        lemma_rank_total_ordering();
        rows0.lemma_sort_by_ensures(rank_leq());
        assert(vstd::relations::sorted_by(rows@, rank_leq()));
        vstd::seq_lib::lemma_sorted_unique(rows@, rows0.sort_by(rank_leq()), rank_leq());
    }
    rows
}

/// The session: state, countdown, and the ranking snapshot taken on the
/// transition to GameOver (empty while playing).
pub struct Session {
    pub state: GameState,
    pub countdown: Countdown,
    pub ranking: Vec<(i32, u32)>,
}

impl Session {
    /// A fresh session: playing, full countdown, no snapshot.
    pub fn begin() -> (r: Session)
        ensures
            r.state == GameState::Playing,
            r.countdown.remaining_ms == GAME_TIME_MS,
            r.ranking@ == Seq::<(i32, u32)>::empty(),
    {
        let r = Session {
            state: GameState::Playing,
            countdown: Countdown { remaining_ms: GAME_TIME_MS },
            ranking: Vec::new(),
        };
        proof {
            assert(r.ranking@ =~= Seq::<(i32, u32)>::empty());
        }
        r
    }
}

/// Advances the session by one tick: while playing, the countdown loses the
/// elapsed time, and the round ends — with the ranking snapshotted — when
/// the player's leader was eliminated this tick or the countdown ran out.
/// A finished round stays finished until an explicit replay.
pub fn tick_session(
    session: &mut Session,
    reg: &FactionRegistry,
    player_eliminated: bool,
    dt_ms: u64,
)
    requires
        reg.wf(),
    ensures
        old(session).state == GameState::GameOver ==> *final(session) == *old(session),
        old(session).state == GameState::Playing ==> {
            let left = if old(session).countdown.remaining_ms >= dt_ms {
                old(session).countdown.remaining_ms - dt_ms
            } else {
                0
            };
            &&& final(session).countdown.remaining_ms == left
            &&& ((player_eliminated || left == 0) ==> final(session).state == GameState::GameOver
                && final(session).ranking@ == registry_rows(*reg).sort_by(rank_leq()))
            &&& (!(player_eliminated || left == 0) ==> final(session).state == GameState::Playing
                && final(session).ranking@ == old(session).ranking@)
        },
{
    if matches!(session.state, GameState::GameOver) {
        return ;
    }
    let left = if session.countdown.remaining_ms >= dt_ms {
        session.countdown.remaining_ms - dt_ms
    } else {
        0
    };
    session.countdown.remaining_ms = left;
    if player_eliminated || left == 0 {
        session.state = GameState::GameOver;
        session.ranking = ranking_of(reg);
    }
}

/// Whether the finished round is a victory: the player's faction tops the
/// final ranking.
pub fn is_victory(session: &Session) -> (r: bool)
    ensures
        r == (session.ranking@.len() > 0 && session.ranking@[0].0 == 0),
{
    session.ranking.len() > 0 && session.ranking[0].0 == 0
}

} // verus!
