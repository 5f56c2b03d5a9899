//! The participant model: one record per connected player, carrying the
//! typed state the host would otherwise attach and detach per entity.
//!
//! Attachable records (cooldown, combat state, loading timer, position
//! pin) appear as `Option` fields: `Some` stands for "attached". The
//! lifecycle stage is a closed enum; exactly one stage holds at a time.

use crate::classes::{ClassKind, Cooldown, ItemKind};
use crate::geom::Vec3Milli;
use vstd::prelude::*;

verus! {

/// Where a participant stands in the match lifecycle.
#[derive(Clone, Copy, Debug, PartialEq, Eq, Structural)]
pub enum Stage {
    /// Connected, waiting in the lobby; no class yet.
    Lobby,
    /// A class trigger fired this tick; the move to the arena is pending.
    ClassPicked,
    /// Fighting (or loading in) on the arena layer.
    Arena,
}

/// The player's game mode as the host displays it.
#[derive(Clone, Copy, Debug, PartialEq, Eq, Structural)]
pub enum GameMode {
    Adventure,
    Survival,
}

/// Per-participant melee bookkeeping: the tick of the last knockback
/// this player received.
#[derive(Clone, Copy, Debug, PartialEq, Eq, Structural)]
pub struct CombatState {
    pub last_attacked_tick: i64,
}

impl CombatState {
    pub fn new() -> (r: CombatState)
        ensures
            r.last_attacked_tick == 0,
    {
        CombatState { last_attacked_tick: 0 }
    }
}

/// Countdown attached while a freshly teleported participant's view of
/// the arena streams in.
#[derive(Clone, Copy, Debug, PartialEq, Eq, Structural)]
pub struct ChunksLoading {
    pub timer: i64,
}

/// The grace-window timer starts at one fifth of a second: a fifth of
/// `TICKS_PER_SECOND`.
pub const LOADING_TICKS: i64 = 4;

impl Default for ChunksLoading {
    fn default() -> (r: ChunksLoading)
        ensures
            r.timer == LOADING_TICKS,
    {
        ChunksLoading { timer: LOADING_TICKS }
    }
}

/// Position pin applied every tick while the grace window is open.
#[derive(Clone, Copy, Debug, PartialEq, Eq, Structural)]
pub struct KeepPosition(pub Vec3Milli);

/// One connected participant.
#[derive(Clone, Copy, Debug, PartialEq, Eq, Structural)]
pub struct Player {
    /// Stable entity identity handed out by the host.
    pub id: u64,
    /// Feet position in milli-units.
    pub pos: Vec3Milli,
    /// Velocity in milli-units per second, as last pushed to the host.
    pub vel: Vec3Milli,
    /// Unit look direction in milli-units (length about 1000).
    pub look: Vec3Milli,
    pub on_ground: bool,
    pub sprinting: bool,
    pub game_mode: GameMode,
    /// The item in the currently selected hotbar slot.
    pub held_item: ItemKind,
    /// Movement-speed multiplier in thousandths of the baseline.
    pub speed_factor_milli: i64,
    /// Dirty mask of the inventory as the host tracks it; all bits set
    /// forces a full resend.
    pub inventory_changed: u64,
    pub stage: Stage,
    pub class: Option<ClassKind>,
    /// Set when the class was assigned this tick and the starting
    /// loadout has not been equipped yet.
    pub fresh_class: bool,
    pub combat: Option<CombatState>,
    pub cooldown: Option<Cooldown>,
    pub loading: Option<ChunksLoading>,
    pub keep_position: Option<KeepPosition>,
}

impl Player {
    /// An attached cooldown always has at least one tick left, and a
    /// participant past the lobby has a class.
    pub open spec fn wf(self) -> bool {
        &&& (self.cooldown matches Some(c) ==> c.0 >= 1)
        &&& (self.stage != Stage::Lobby ==> self.class is Some)
        &&& (self.stage == Stage::Lobby ==> self.class is None)
    }

    /// A participant as they join: placed in the lobby in adventure
    /// mode with an empty loadout.
    pub fn join(id: u64, pos: Vec3Milli, look: Vec3Milli) -> (p: Player)
        ensures
            p.wf(),
            p.id == id,
            p.pos == pos,
            p.vel == (Vec3Milli { x: 0, y: 0, z: 0 }),
            p.look == look,
            p.stage == Stage::Lobby,
            p.game_mode == GameMode::Adventure,
            p.held_item == ItemKind::Empty,
            p.class is None,
            p.cooldown is None,
            p.combat is None,
            p.loading is None,
            p.keep_position is None,
            !p.fresh_class,
            !p.on_ground,
            !p.sprinting,
            p.speed_factor_milli == 1000,
            p.inventory_changed == 0,
    {
        Player {
            id,
            pos,
            vel: Vec3Milli { x: 0, y: 0, z: 0 },
            look,
            on_ground: false,
            sprinting: false,
            game_mode: GameMode::Adventure,
            held_item: ItemKind::Empty,
            speed_factor_milli: 1000,
            inventory_changed: 0,
            stage: Stage::Lobby,
            class: None,
            fresh_class: false,
            combat: None,
            cooldown: None,
            loading: None,
            keep_position: None,
        }
    }
}

/// Ids are pairwise distinct across the roster.
pub open spec fn ids_distinct(s: Seq<Player>) -> bool {
    forall|i: int, j: int| 0 <= i < j < s.len() ==> (#[trigger] s[i]).id != (#[trigger] s[j]).id
}

/// A roster is well formed when ids are pairwise distinct and each
/// player is well formed.
pub open spec fn roster_wf(s: Seq<Player>) -> bool {
    &&& ids_distinct(s)
    &&& forall|i: int| 0 <= i < s.len() ==> (#[trigger] s[i]).wf()
}

/// The index of the player with the given id, if any.
pub open spec fn spec_find_player(s: Seq<Player>, id: u64) -> Option<int> {
    if exists|i: int| 0 <= i < s.len() && (#[trigger] s[i]).id == id {
        Some(choose|i: int| 0 <= i < s.len() && (#[trigger] s[i]).id == id)
    } else {
        None
    }
}

/// Replacing a player while keeping their id leaves every lookup
/// unchanged.
pub proof fn lemma_find_player_stable(ps: Seq<Player>, i: int, p2: Player, id: u64)
    requires
        ids_distinct(ps),
        0 <= i < ps.len(),
        p2.id == ps[i].id,
    ensures
        spec_find_player(ps.update(i, p2), id) == spec_find_player(ps, id),
{
    let ps2 = ps.update(i, p2);
    assert(forall|j: int| 0 <= j < ps.len() ==> (#[trigger] ps2[j]).id == ps[j].id);
    if exists|w: int| 0 <= w < ps.len() && (#[trigger] ps[w]).id == id {
        let w = choose|w: int| 0 <= w < ps.len() && (#[trigger] ps[w]).id == id;
        assert(ps2[w].id == id);
        let w2 = choose|w2: int| 0 <= w2 < ps2.len() && (#[trigger] ps2[w2]).id == id;
        assert(ps[w2].id == id);
        if w != w2 {
            assert(ps[w].id != ps[w2].id);
        }
    } else {
        assert forall|w: int| 0 <= w < ps2.len() implies (#[trigger] ps2[w]).id != id by {
            assert(ps[w].id != id);
        }
    }
}

/// Finds the roster index of the player with the given id.
pub fn find_player(players: &Vec<Player>, id: u64) -> (r: Option<usize>)
    requires
        ids_distinct(players@),
    ensures
        r matches Some(i) ==> spec_find_player(players@, id) == Some(i as int)
            && i < players@.len() && players@[i as int].id == id,
        r is None ==> spec_find_player(players@, id) is None,
{
    let n = players.len();
    let mut i: usize = 0;
    while i < n
        invariant
            ids_distinct(players@),
            n == players@.len(),
            0 <= i <= n,
            forall|j: int| 0 <= j < i ==> (#[trigger] players@[j]).id != id,
        decreases n - i,
    {
        if players[i].id == id {
            proof {
                let w = choose|w: int|
                    0 <= w < players@.len() && (#[trigger] players@[w]).id == id;
                assert(w == i);
            }
            return Some(i);
        }
        i = i + 1;
    }
    None
}

} // verus!
