//! Combat classes, their starting loadouts, and the ability cooldown.
//!
//! A participant is assigned exactly one of the four classes when a
//! lobby trigger fires; the class decides the single ability item they
//! carry, the cooldown their ability imposes, and the passive modifiers
//! applied on assignment.

use crate::block::Block;
use crate::events::{DiggingEvent, InteractBlockEvent, InteractItemEvent};
use crate::geom::{LatticePos, Vec3Milli};
use crate::projectile::{Projectile, ProjectileKind};
use crate::grid::VoxelGrid;
use crate::player::{ids_distinct, spec_find_player, GameMode, Player};
use vstd::pervasive::VecAdditionalExecFns;
use vstd::prelude::*;

verus! {

/// The four combat classes, as one closed variant set.
#[derive(Clone, Copy, Debug, PartialEq, Eq, Structural)]
pub enum ClassKind {
    Warrior,
    Archer,
    Mage,
    Rogue,
}

impl ClassKind {
    /// The display name of the class.
    pub fn name(&self) -> (r: &'static str)
        ensures
            *self == ClassKind::Warrior ==> r@ == "Warrior"@,
            *self == ClassKind::Archer ==> r@ == "Archer"@,
            *self == ClassKind::Mage ==> r@ == "Mage"@,
            *self == ClassKind::Rogue ==> r@ == "Rogue"@,
    {
        match self {
            ClassKind::Warrior => "Warrior",
            ClassKind::Archer => "Archer",
            ClassKind::Mage => "Mage",
            ClassKind::Rogue => "Rogue",
        }
    }
}

/// Item kinds the simulation distinguishes: the four class ability
/// items, the fireball's display item, and the empty slot.
#[derive(Clone, Copy, Debug, PartialEq, Eq, Structural)]
pub enum ItemKind {
    Empty,
    WoodenShovel,
    Bow,
    FireworkRocket,
    WoodenSword,
    FireCharge,
}

/// The ability item each class starts with and must hold to fire.
pub open spec fn spec_ability_item(c: ClassKind) -> ItemKind {
    match c {
        ClassKind::Warrior => ItemKind::WoodenShovel,
        ClassKind::Archer => ItemKind::Bow,
        ClassKind::Mage => ItemKind::FireworkRocket,
        ClassKind::Rogue => ItemKind::WoodenSword,
    }
}

pub fn ability_item(c: ClassKind) -> (r: ItemKind)
    ensures
        r == spec_ability_item(c),
{
    match c {
        ClassKind::Warrior => ItemKind::WoodenShovel,
        ClassKind::Archer => ItemKind::Bow,
        ClassKind::Mage => ItemKind::FireworkRocket,
        ClassKind::Rogue => ItemKind::WoodenSword,
    }
}

/// Ability countdown attached to an entity; while present, the entity
/// cannot fire its ability again.
#[derive(Clone, Copy, Debug, PartialEq, Eq, Structural)]
pub struct Cooldown(pub i32);

/// The movement-speed multiplier, in thousandths, the rogue keeps for
/// the rest of the match.
pub const ROGUE_SPEED_FACTOR_MILLI: i64 = 200;

/// The starting loadout applied once when `c` was just assigned: the
/// inventory is cleared down to the single ability item, the warrior
/// switches to survival mode, the rogue gets its permanent speed
/// multiplier, and the fresh-class marker is consumed.
pub open spec fn spec_apply_loadout(p: Player, c: ClassKind) -> Player {
    Player {
        held_item: spec_ability_item(c),
        fresh_class: false,
        game_mode: if c == ClassKind::Warrior {
            GameMode::Survival
        } else {
            p.game_mode
        },
        speed_factor_milli: if c == ClassKind::Rogue {
            ROGUE_SPEED_FACTOR_MILLI
        } else {
            p.speed_factor_milli
        },
        ..p
    }
}

/// Whether the loadout pass for class `c` touches player `p`.
pub open spec fn spec_loadout_due(p: Player, c: ClassKind) -> bool {
    p.fresh_class && p.class == Some(c)
}

/// One loadout pass: equips every player whose class `c` was assigned
/// this tick and leaves everyone else unchanged.
fn init_class(players: &mut Vec<Player>, c: ClassKind)
    ensures
        final(players)@.len() == old(players)@.len(),
        forall|i: int|
            0 <= i < old(players)@.len() ==> final(players)@[i] == (if spec_loadout_due(
                #[trigger] old(players)@[i],
                c,
            ) {
                spec_apply_loadout(old(players)@[i], c)
            } else {
                old(players)@[i]
            }),
{
    let n = players.len();
    let mut i: usize = 0;
    while i < n
        invariant
            n == players@.len(),
            n == old(players)@.len(),
            0 <= i <= n,
            forall|j: int|
                0 <= j < i ==> players@[j] == (if spec_loadout_due(
                    #[trigger] old(players)@[j],
                    c,
                ) {
                    spec_apply_loadout(old(players)@[j], c)
                } else {
                    old(players)@[j]
                }),
            forall|j: int| i <= j < n ==> players@[j] == old(players)@[j],
        decreases n - i,
    {
        let p = players[i];
        if p.fresh_class && p.class == Some(c) {
            let equipped = Player {
                held_item: ability_item(c),
                fresh_class: false,
                game_mode: if matches!(c, ClassKind::Warrior) {
                    GameMode::Survival
                } else {
                    p.game_mode
                },
                speed_factor_milli: if matches!(c, ClassKind::Rogue) {
                    ROGUE_SPEED_FACTOR_MILLI
                } else {
                    p.speed_factor_milli
                },
                ..p
            };
            players.set(i, equipped);
        }
        i = i + 1;
    }
}

/// Equips freshly assigned warriors: survival mode and a wooden shovel.
pub fn init_warrior(players: &mut Vec<Player>)
    ensures
        final(players)@.len() == old(players)@.len(),
        forall|i: int|
            0 <= i < old(players)@.len() ==> final(players)@[i] == (if spec_loadout_due(
                #[trigger] old(players)@[i],
                ClassKind::Warrior,
            ) {
                spec_apply_loadout(old(players)@[i], ClassKind::Warrior)
            } else {
                old(players)@[i]
            }),
{
    init_class(players, ClassKind::Warrior)
}

/// Equips freshly assigned archers with a bow.
pub fn init_archer(players: &mut Vec<Player>)
    ensures
        final(players)@.len() == old(players)@.len(),
        forall|i: int|
            0 <= i < old(players)@.len() ==> final(players)@[i] == (if spec_loadout_due(
                #[trigger] old(players)@[i],
                ClassKind::Archer,
            ) {
                spec_apply_loadout(old(players)@[i], ClassKind::Archer)
            } else {
                old(players)@[i]
            }),
{
    init_class(players, ClassKind::Archer)
}

/// Equips freshly assigned mages with a firework rocket.
pub fn init_mage(players: &mut Vec<Player>)
    ensures
        final(players)@.len() == old(players)@.len(),
        forall|i: int|
            0 <= i < old(players)@.len() ==> final(players)@[i] == (if spec_loadout_due(
                #[trigger] old(players)@[i],
                ClassKind::Mage,
            ) {
                spec_apply_loadout(old(players)@[i], ClassKind::Mage)
            } else {
                old(players)@[i]
            }),
{
    init_class(players, ClassKind::Mage)
}

/// Equips freshly assigned rogues with a wooden sword and the permanent
/// speed multiplier.
pub fn init_rogue(players: &mut Vec<Player>)
    ensures
        final(players)@.len() == old(players)@.len(),
        forall|i: int|
            0 <= i < old(players)@.len() ==> final(players)@[i] == (if spec_loadout_due(
                #[trigger] old(players)@[i],
                ClassKind::Rogue,
            ) {
                spec_apply_loadout(old(players)@[i], ClassKind::Rogue)
            } else {
                old(players)@[i]
            }),
{
    init_class(players, ClassKind::Rogue)
}

/// One cooldown tick for a single player: decrement an attached
/// countdown and detach it when it reaches zero.
pub open spec fn spec_tick_cooldown(p: Player) -> Player {
    match p.cooldown {
        None => p,
        Some(c) => if c.0 - 1 <= 0 {
            Player { cooldown: None, ..p }
        } else {
            Player { cooldown: Some(Cooldown((c.0 - 1) as i32)), ..p }
        },
    }
}

/// Decrements every attached cooldown once and detaches those that
/// reach zero.
pub fn update_cooldown(players: &mut Vec<Player>)
    requires
        forall|i: int| 0 <= i < old(players)@.len() ==> (#[trigger] old(players)@[i]).wf(),
    ensures
        final(players)@.len() == old(players)@.len(),
        forall|i: int|
            0 <= i < old(players)@.len() ==> final(players)@[i] == spec_tick_cooldown(
                #[trigger] old(players)@[i],
            ),
{
    let n = players.len();
    let mut i: usize = 0;
    while i < n
        invariant
            n == players@.len(),
            n == old(players)@.len(),
            0 <= i <= n,
            forall|j: int| 0 <= j < old(players)@.len() ==> (#[trigger] old(players)@[j]).wf(),
            forall|j: int|
                0 <= j < i ==> players@[j] == spec_tick_cooldown(#[trigger] old(players)@[j]),
            forall|j: int| i <= j < n ==> players@[j] == old(players)@[j],
        decreases n - i,
    {
        let p = players[i];
        if let Some(c) = p.cooldown {
            let left = c.0 - 1;
            if left <= 0 {
                players.set(i, Player { cooldown: None, ..p });
            } else {
                players.set(i, Player { cooldown: Some(Cooldown(left)), ..p });
            }
        }
        i = i + 1;
    }
}

/// A cooldown attached with one tick remaining is detached by exactly
/// one decrement pass.
pub proof fn lemma_cooldown_one_tick_detaches(p: Player)
    requires
        p.cooldown == Some(Cooldown(1)),
    ensures
        spec_tick_cooldown(p).cooldown is None,
{
}

/// The cooldown the warrior's dig imposes on the digger: one tick, a
/// self-throttle rather than a real digging delay.
pub const WARRIOR_DIG_COOLDOWN_TICKS: i32 = 1;

/// What one digging event does. The digger must be a warrior without
/// an active cooldown, holding the shovel, aiming at a covered
/// destructible cell, and must not have dug already this tick; then
/// the cell clears and the one-tick cooldown is granted. Every failed
/// check leaves all state untouched.
pub open spec fn spec_dig_one(
    ps: Seq<Player>,
    g: Map<LatticePos, Block>,
    done: Set<u64>,
    ev: DiggingEvent,
) -> (Seq<Player>, Map<LatticePos, Block>, Set<u64>) {
    match spec_find_player(ps, ev.client) {
        None => (ps, g, done),
        Some(i) => {
            let p = ps[i];
            if p.class != Some(ClassKind::Warrior) || p.cooldown is Some {
                (ps, g, done)
            } else if p.held_item != ItemKind::WoodenShovel {
                (ps, g, done)
            } else if !g.dom().contains(ev.position) {
                (ps, g, done)
            } else if g[ev.position].spec_destructible() {
                if done.contains(ev.client) {
                    (ps, g, done)
                } else {
                    (
                        ps.update(
                            i,
                            Player {
                                cooldown: Some(Cooldown(WARRIOR_DIG_COOLDOWN_TICKS)),
                                ..p
                            },
                        ),
                        g.insert(ev.position, Block::Air),
                        done.insert(ev.client),
                    )
                }
            } else {
                (ps, g, done)
            }
        },
    }
}

/// The dig pass over the first `k` events, threading players, grid and
/// the per-tick dedupe set through in order.
pub open spec fn spec_dig_events(
    ps: Seq<Player>,
    g: Map<LatticePos, Block>,
    done: Set<u64>,
    evs: Seq<DiggingEvent>,
    k: int,
) -> (Seq<Player>, Map<LatticePos, Block>, Set<u64>)
    decreases k,
{
    if k <= 0 {
        (ps, g, done)
    } else {
        let prev = spec_dig_events(ps, g, done, evs, k - 1);
        spec_dig_one(prev.0, prev.1, prev.2, evs[k - 1])
    }
}

/// Processes the tick's digging events for the warriors: a dig on a
/// covered destructible cell clears it and grants the digger the
/// one-tick cooldown, at most once per digger per tick; every other
/// dig is ignored.
pub fn warrior_dig(
    players: &mut Vec<Player>,
    grid: &mut VoxelGrid,
    events: &Vec<DiggingEvent>,
)
    requires
        ids_distinct(old(players)@),
        old(grid).wf(),
    ensures
        final(grid).wf(),
        ids_distinct(final(players)@),
        final(players)@ == spec_dig_events(
            old(players)@,
            old(grid)@,
            Set::empty(),
            events@,
            events@.len() as int,
        ).0,
        final(grid)@ == spec_dig_events(
            old(players)@,
            old(grid)@,
            Set::empty(),
            events@,
            events@.len() as int,
        ).1,
{
    let n = events.len();
    let mut processed: Vec<u64> = Vec::new();
    let mut i: usize = 0;
    while i < n
        invariant
            grid.wf(),
            n == events@.len(),
            0 <= i <= n,
            ids_distinct(players@),
            players@ == spec_dig_events(
                old(players)@,
                old(grid)@,
                Set::empty(),
                events@,
                i as int,
            ).0,
            grid@ == spec_dig_events(
                old(players)@,
                old(grid)@,
                Set::empty(),
                events@,
                i as int,
            ).1,
            forall|id: u64|
                spec_dig_events(
                    old(players)@,
                    old(grid)@,
                    Set::empty(),
                    events@,
                    i as int,
                ).2.contains(id) == processed@.contains(id),
        decreases n - i,
    {
        let ghost pre = spec_dig_events(
            old(players)@,
            old(grid)@,
            Set::empty(),
            events@,
            i as int,
        );
        let ev = events[i];
        match crate::player::find_player(players, ev.client) {
            None => {},
            Some(pi) => {
                let p = players[pi];
                if matches!(p.class, Some(ClassKind::Warrior)) && p.cooldown.is_none()
                    && matches!(p.held_item, ItemKind::WoodenShovel) {
                    match grid.get(ev.position) {
                        None => {},
                        Some(b) => {
                            if b.is_destructible() {
                                if !crate::events::contains_id(&processed, ev.client) {
                                    let ghost ppre = processed@;
                                    processed.push(ev.client);
                                    grid.set(ev.position, Block::Air);
                                    players.set(
                                        pi,
                                        Player {
                                            cooldown: Some(
                                                Cooldown(WARRIOR_DIG_COOLDOWN_TICKS),
                                            ),
                                            ..p
                                        },
                                    );
                                    proof {
                                        assert forall|id: u64|
                                            pre.2.insert(ev.client).contains(id)
                                                == processed@.contains(id) by {
                                            if id == ev.client {
                                                assert(processed@[ppre.len() as int] == id);
                                            } else {
                                                if ppre.contains(id) {
                                                    let w = choose|w: int|
                                                        0 <= w < ppre.len() && ppre[w] == id;
                                                    assert(processed@[w] == id);
                                                } else {
                                                    assert forall|w: int|
                                                        0 <= w < processed@.len()
                                                            && processed@[w] == id
                                                        implies false by {
                                                        assert(ppre[w] == id);
                                                    }
                                                }
                                            }
                                        }
                                        assert(ids_distinct(players@)) by {
                                            assert forall|a: int, b: int|
                                                0 <= a < b < players@.len() implies (
                                                #[trigger] players@[a]).id != (
                                                #[trigger] players@[b]).id by {
                                                assert(pre.0[a].id != pre.0[b].id);
                                            }
                                        }
                                    }
                                }
                            }
                        },
                    }
                }
            },
        }
        proof {
            assert(spec_dig_events(
                old(players)@,
                old(grid)@,
                Set::empty(),
                events@,
                i + 1,
            ) == spec_dig_one(pre.0, pre.1, pre.2, events@[i as int]));
        }
        i = i + 1;
    }
}

/// A participant with a live cooldown never passes the dig gate: the
/// digging event leaves players, grid and dedupe record untouched.
pub proof fn lemma_cooldown_gates_dig(
    ps: Seq<Player>,
    g: Map<LatticePos, Block>,
    done: Set<u64>,
    ev: DiggingEvent,
)
    requires
        spec_find_player(ps, ev.client) matches Some(i) && ps[i].cooldown is Some,
    ensures
        spec_dig_one(ps, g, done, ev) == (ps, g, done),
{
}

/// The dig pass only grants cooldowns and clears covered cells: every
/// player keeps all other state, and the covered domain of the grid
/// does not change.
pub proof fn lemma_dig_events_frame(
    ps: Seq<Player>,
    g: Map<LatticePos, Block>,
    done: Set<u64>,
    evs: Seq<DiggingEvent>,
    k: int,
)
    requires
        0 <= k,
    ensures
        ({
            let r = spec_dig_events(ps, g, done, evs, k);
            &&& r.0.len() == ps.len()
            &&& forall|j: int|
                0 <= j < ps.len() ==> (#[trigger] r.0[j]) == ps[j] || r.0[j] == (Player {
                    cooldown: Some(Cooldown(WARRIOR_DIG_COOLDOWN_TICKS)),
                    ..ps[j]
                })
            &&& r.1.dom() == g.dom()
        }),
    decreases k,
{
    if k > 0 {
        lemma_dig_events_frame(ps, g, done, evs, k - 1);
        let prev = spec_dig_events(ps, g, done, evs, k - 1);
        let r = spec_dig_one(prev.0, prev.1, prev.2, evs[k - 1]);
        if r.1 != prev.1 {
            assert(r.1.dom() =~= prev.1.dom());
        }
    } else {
        assert(spec_dig_events(ps, g, done, evs, k).1.dom() =~= g.dom());
    }
}

/// A dig lands at most once per digger per tick: once a digging event
/// has cleared a cell, every further digging event by the same digger
/// in the same tick leaves players, grid and dedupe record exactly as
/// they were.
pub proof fn lemma_dig_at_most_once_per_tick(
    ps: Seq<Player>,
    g: Map<LatticePos, Block>,
    done: Set<u64>,
    ev1: DiggingEvent,
    ev2: DiggingEvent,
)
    requires
        ids_distinct(ps),
        ev2.client == ev1.client,
        spec_dig_one(ps, g, done, ev1).0 != ps,
    ensures
        ({
            let r1 = spec_dig_one(ps, g, done, ev1);
            spec_dig_one(r1.0, r1.1, r1.2, ev2) == r1
        }),
{
    let r1 = spec_dig_one(ps, g, done, ev1);
    assert(spec_find_player(ps, ev1.client) is Some);
    let i = spec_find_player(ps, ev1.client)->Some_0;
    let equipped = Player {
        cooldown: Some(Cooldown(WARRIOR_DIG_COOLDOWN_TICKS)),
        ..ps[i]
    };
    assert(r1.0 == ps.update(i, equipped));
    crate::player::lemma_find_player_stable(ps, i, equipped, ev2.client);
    assert(spec_find_player(r1.0, ev2.client) == Some(i));
    assert(r1.0[i].cooldown is Some);
    lemma_cooldown_gates_dig(r1.0, r1.1, r1.2, ev2);
}

/// Cooldown the archer's shot imposes.
pub const ARCHER_COOLDOWN_TICKS: i32 = 5;

/// Cooldown the mage's shot imposes.
pub const MAGE_COOLDOWN_TICKS: i32 = 15;

/// The look direction is a unit vector in milli-units, so each
/// component stays within twice the unit length.
pub open spec fn look_bounded(v: Vec3Milli) -> bool {
    &&& -2000 <= v.x <= 2000
    &&& -2000 <= v.y <= 2000
    &&& -2000 <= v.z <= 2000
}

/// What one ability-fire event does for class `c` (archer or mage; the
/// other classes have no projectile ability). The shooter must have
/// the class, no active cooldown, the ability item in hand, and must
/// not have fired this tick; then a projectile spawns one and a half
/// units above the eyes' origin shifted by the look direction, with
/// thirty times the look direction as velocity, and the class cooldown
/// is granted.
pub open spec fn spec_fire_one(
    ps: Seq<Player>,
    pj: Seq<Projectile>,
    done: Set<u64>,
    client: u64,
    c: ClassKind,
) -> (Seq<Player>, Seq<Projectile>, Set<u64>) {
    match spec_find_player(ps, client) {
        None => (ps, pj, done),
        Some(i) => {
            let p = ps[i];
            if c != ClassKind::Archer && c != ClassKind::Mage {
                (ps, pj, done)
            } else if p.class != Some(c) || p.cooldown is Some {
                (ps, pj, done)
            } else if p.held_item != spec_ability_item(c) {
                (ps, pj, done)
            } else if done.contains(client) {
                (ps, pj, done)
            } else {
                let origin = Vec3Milli {
                    x: (p.pos.x + p.look.x) as i64,
                    y: (p.pos.y + 1500 + p.look.y) as i64,
                    z: (p.pos.z + p.look.z) as i64,
                };
                let vel = Vec3Milli {
                    x: (p.look.x * 30) as i64,
                    y: (p.look.y * 30) as i64,
                    z: (p.look.z * 30) as i64,
                };
                let spawned = Projectile {
                    owner: client,
                    kind: if c == ClassKind::Archer {
                        ProjectileKind::Arrow
                    } else {
                        ProjectileKind::Fireball
                    },
                    pos: origin,
                    vel,
                    gravity_disabled: c == ClassKind::Mage,
                    despawned: false,
                };
                let cd = if c == ClassKind::Archer {
                    ARCHER_COOLDOWN_TICKS
                } else {
                    MAGE_COOLDOWN_TICKS
                };
                (
                    ps.update(i, Player { cooldown: Some(Cooldown(cd)), ..p }),
                    pj.push(spawned),
                    done.insert(client),
                )
            }
        },
    }
}

/// The fire pass over the first `k` acting clients, in order.
pub open spec fn spec_fire_events(
    ps: Seq<Player>,
    pj: Seq<Projectile>,
    done: Set<u64>,
    clients: Seq<u64>,
    c: ClassKind,
    k: int,
) -> (Seq<Player>, Seq<Projectile>, Set<u64>)
    decreases k,
{
    if k <= 0 {
        (ps, pj, done)
    } else {
        let prev = spec_fire_events(ps, pj, done, clients, c, k - 1);
        spec_fire_one(prev.0, prev.1, prev.2, clients[k - 1], c)
    }
}

/// A participant with a live cooldown never passes the ability-fire
/// gate: the fire event leaves players, projectiles and dedupe record
/// untouched.
pub proof fn lemma_cooldown_gates_fire(
    ps: Seq<Player>,
    pj: Seq<Projectile>,
    done: Set<u64>,
    client: u64,
    c: ClassKind,
)
    requires
        spec_find_player(ps, client) matches Some(i) && ps[i].cooldown is Some,
    ensures
        spec_fire_one(ps, pj, done, client, c) == (ps, pj, done),
{
}

/// A projectile as the fire pass spawns it: near a bounded shooter,
/// slower than thirty times a unit look vector, and in flight.
pub open spec fn spawned_projectile_ok(q: Projectile) -> bool {
    &&& !q.despawned
    &&& -1_000_003_500 <= q.pos.x <= 1_000_003_500
    &&& -1_000_003_500 <= q.pos.y <= 1_000_003_500
    &&& -1_000_003_500 <= q.pos.z <= 1_000_003_500
    &&& -60000 <= q.vel.x <= 60000
    &&& -60000 <= q.vel.y <= 60000
    &&& -60000 <= q.vel.z <= 60000
}

/// The fire pass only grants cooldowns and appends projectiles: every
/// player keeps all other state, the projectiles already in flight are
/// untouched, and every appended projectile is a fresh, bounded spawn.
pub proof fn lemma_fire_events_frame(
    ps: Seq<Player>,
    pj: Seq<Projectile>,
    done: Set<u64>,
    clients: Seq<u64>,
    c: ClassKind,
    k: int,
)
    requires
        0 <= k,
        forall|i: int|
            0 <= i < ps.len() ==> crate::combat::combat_pos_bounded(
                (#[trigger] ps[i]).pos,
            ) && look_bounded(ps[i].look),
    ensures
        ({
            let r = spec_fire_events(ps, pj, done, clients, c, k);
            let cd = if c == ClassKind::Archer {
                ARCHER_COOLDOWN_TICKS
            } else {
                MAGE_COOLDOWN_TICKS
            };
            &&& r.0.len() == ps.len()
            &&& forall|j: int|
                0 <= j < ps.len() ==> (#[trigger] r.0[j]) == ps[j] || r.0[j] == (Player {
                    cooldown: Some(Cooldown(cd)),
                    ..ps[j]
                })
            &&& r.1.len() >= pj.len()
            &&& forall|j: int| 0 <= j < pj.len() ==> (#[trigger] r.1[j]) == pj[j]
            &&& forall|j: int|
                pj.len() <= j < r.1.len() ==> spawned_projectile_ok(#[trigger] r.1[j])
        }),
    decreases k,
{
    if k > 0 {
        lemma_fire_events_frame(ps, pj, done, clients, c, k - 1);
    }
}

/// An ability fires at most once per shooter per tick: once a fire
/// event has spawned a projectile, every further fire event by the
/// same shooter in the same tick changes nothing.
pub proof fn lemma_fire_at_most_once_per_tick(
    ps: Seq<Player>,
    pj: Seq<Projectile>,
    done: Set<u64>,
    client: u64,
    c: ClassKind,
)
    requires
        ids_distinct(ps),
        spec_fire_one(ps, pj, done, client, c).0 != ps,
    ensures
        ({
            let r1 = spec_fire_one(ps, pj, done, client, c);
            spec_fire_one(r1.0, r1.1, r1.2, client, c) == r1
        }),
{
    let r1 = spec_fire_one(ps, pj, done, client, c);
    assert(spec_find_player(ps, client) is Some);
    let i = spec_find_player(ps, client)->Some_0;
    let cd = if c == ClassKind::Archer {
        ARCHER_COOLDOWN_TICKS
    } else {
        MAGE_COOLDOWN_TICKS
    };
    let reloading = Player { cooldown: Some(Cooldown(cd)), ..ps[i] };
    assert(r1.0 == ps.update(i, reloading));
    crate::player::lemma_find_player_stable(ps, i, reloading, client);
    assert(spec_find_player(r1.0, client) == Some(i));
    assert(r1.0[i].cooldown is Some);
    lemma_cooldown_gates_fire(r1.0, r1.1, r1.2, client, c);
}

/// Runs the fire pass for clients `from .. clients.len()` of the batch
/// against the live state, extending the dedupe record.
fn fire_batch(
    players: &mut Vec<Player>,
    projectiles: &mut Vec<Projectile>,
    processed: &mut Vec<u64>,
    clients: &Vec<u64>,
    from: usize,
    c: ClassKind,
    Ghost(ps0): Ghost<Seq<Player>>,
    Ghost(pj0): Ghost<Seq<Projectile>>,
    Ghost(all): Ghost<Seq<u64>>,
)
    requires
        ids_distinct(old(players)@),
        forall|j: int|
            0 <= j < old(players)@.len() ==> crate::projectile::pos_bounded(
                (#[trigger] old(players)@[j]).pos,
            ) && look_bounded(old(players)@[j].look),
        from <= clients@.len(),
        all.len() >= from,
        forall|j: int| from <= j < clients@.len() ==> all[j] == clients@[j],
        all.len() == clients@.len(),
        old(players)@ == spec_fire_events(ps0, pj0, Set::empty(), all, c, from as int).0,
        old(projectiles)@ == spec_fire_events(ps0, pj0, Set::empty(), all, c, from as int).1,
        forall|id: u64|
            spec_fire_events(ps0, pj0, Set::empty(), all, c, from as int).2.contains(id)
                == old(processed)@.contains(id),
    ensures
        ids_distinct(final(players)@),
        forall|j: int|
            0 <= j < final(players)@.len() ==> crate::projectile::pos_bounded(
                (#[trigger] final(players)@[j]).pos,
            ) && look_bounded(final(players)@[j].look),
        final(players)@ == spec_fire_events(
            ps0,
            pj0,
            Set::empty(),
            all,
            c,
            all.len() as int,
        ).0,
        final(projectiles)@ == spec_fire_events(
            ps0,
            pj0,
            Set::empty(),
            all,
            c,
            all.len() as int,
        ).1,
        forall|id: u64|
            spec_fire_events(ps0, pj0, Set::empty(), all, c, all.len() as int).2.contains(id)
                == final(processed)@.contains(id),
{
    let n = clients.len();
    let mut i: usize = from;
    while i < n
        invariant
            from <= i <= n,
            n == clients@.len(),
            n == all.len(),
            forall|j: int| from <= j < n ==> all[j] == clients@[j],
            ids_distinct(players@),
            forall|j: int|
                0 <= j < players@.len() ==> crate::projectile::pos_bounded(
                    (#[trigger] players@[j]).pos,
                ) && look_bounded(players@[j].look),
            players@ == spec_fire_events(ps0, pj0, Set::empty(), all, c, i as int).0,
            projectiles@ == spec_fire_events(ps0, pj0, Set::empty(), all, c, i as int).1,
            forall|id: u64|
                spec_fire_events(ps0, pj0, Set::empty(), all, c, i as int).2.contains(id)
                    == processed@.contains(id),
        decreases n - i,
    {
        let ghost pre = spec_fire_events(ps0, pj0, Set::empty(), all, c, i as int);
        let client = clients[i];
        let is_archer = matches!(c, ClassKind::Archer);
        let is_mage = matches!(c, ClassKind::Mage);
        match crate::player::find_player(players, client) {
            None => {},
            Some(pi) => {
                let p = players[pi];
                let class_matches = match (c, p.class) {
                    (ClassKind::Archer, Some(ClassKind::Archer)) => true,
                    (ClassKind::Mage, Some(ClassKind::Mage)) => true,
                    _ => false,
                };
                if (is_archer || is_mage) && class_matches && p.cooldown.is_none()
                    && ability_item(c) == p.held_item && !crate::events::contains_id(
                    processed,
                    client,
                ) {
                    let ghost ppre = processed@;
                    processed.push(client);
                    let origin = Vec3Milli {
                        x: p.pos.x + p.look.x,
                        y: p.pos.y + 1500 + p.look.y,
                        z: p.pos.z + p.look.z,
                    };
                    let vel = Vec3Milli {
                        x: p.look.x * 30,
                        y: p.look.y * 30,
                        z: p.look.z * 30,
                    };
                    let spawned = Projectile {
                        owner: client,
                        kind: if is_archer {
                            ProjectileKind::Arrow
                        } else {
                            ProjectileKind::Fireball
                        },
                        pos: origin,
                        vel,
                        gravity_disabled: is_mage,
                        despawned: false,
                    };
                    projectiles.push(spawned);
                    let cd = if is_archer {
                        ARCHER_COOLDOWN_TICKS
                    } else {
                        MAGE_COOLDOWN_TICKS
                    };
                    players.set(pi, Player { cooldown: Some(Cooldown(cd)), ..p });
                    proof {
                        assert forall|id: u64|
                            pre.2.insert(client).contains(id) == processed@.contains(id) by {
                            if id == client {
                                assert(processed@[ppre.len() as int] == id);
                            } else {
                                if ppre.contains(id) {
                                    let w = choose|w: int|
                                        0 <= w < ppre.len() && ppre[w] == id;
                                    assert(processed@[w] == id);
                                } else {
                                    assert forall|w: int|
                                        0 <= w < processed@.len() && processed@[w] == id
                                        implies false by {
                                        assert(ppre[w] == id);
                                    }
                                }
                            }
                        }
                        assert(ids_distinct(players@)) by {
                            assert forall|a: int, b: int|
                                0 <= a < b < players@.len() implies (
                                #[trigger] players@[a]).id != (#[trigger] players@[b]).id by {
                                assert(pre.0[a].id != pre.0[b].id);
                            }
                        }
                    }
                }
            },
        }
        proof {
            assert(spec_fire_events(ps0, pj0, Set::empty(), all, c, i + 1) == spec_fire_one(
                pre.0,
                pre.1,
                pre.2,
                all[i as int],
                c,
            ));
        }
        i = i + 1;
    }
}

/// Processes the tick's item-use events for the archers: each eligible
/// archer fires one arrow, at most once per tick, and takes the
/// five-tick cooldown. An archer with an active cooldown never fires.
pub fn archer_shoot(
    players: &mut Vec<Player>,
    projectiles: &mut Vec<Projectile>,
    events: &Vec<InteractItemEvent>,
)
    requires
        ids_distinct(old(players)@),
        forall|j: int|
            0 <= j < old(players)@.len() ==> crate::projectile::pos_bounded(
                (#[trigger] old(players)@[j]).pos,
            ) && look_bounded(old(players)@[j].look),
    ensures
        ids_distinct(final(players)@),
        final(players)@ == spec_fire_events(
            old(players)@,
            old(projectiles)@,
            Set::empty(),
            events@.map_values(|e: InteractItemEvent| e.client),
            ClassKind::Archer,
            events@.len() as int,
        ).0,
        final(projectiles)@ == spec_fire_events(
            old(players)@,
            old(projectiles)@,
            Set::empty(),
            events@.map_values(|e: InteractItemEvent| e.client),
            ClassKind::Archer,
            events@.len() as int,
        ).1,
{
    let ghost all = events@.map_values(|e: InteractItemEvent| e.client);
    let mut clients: Vec<u64> = Vec::new();
    let n = events.len();
    let mut i: usize = 0;
    while i < n
        invariant
            n == events@.len(),
            0 <= i <= n,
            clients@.len() == i,
            forall|j: int| 0 <= j < i ==> clients@[j] == all[j],
            all == events@.map_values(|e: InteractItemEvent| e.client),
        decreases n - i,
    {
        clients.push(events[i].client);
        i = i + 1;
    }
    let mut processed: Vec<u64> = Vec::new();
    fire_batch(
        players,
        projectiles,
        &mut processed,
        &clients,
        0,
        ClassKind::Archer,
        Ghost(players@),
        Ghost(projectiles@),
        Ghost(all),
    );
}

/// Processes the tick's item-use and block-interact events for the
/// mages, in that order: each eligible mage fires one fireball, at
/// most once per tick over both batches together, and takes the
/// fifteen-tick cooldown.
pub fn mage_shoot(
    players: &mut Vec<Player>,
    projectiles: &mut Vec<Projectile>,
    item_events: &Vec<InteractItemEvent>,
    block_events: &Vec<InteractBlockEvent>,
)
    requires
        ids_distinct(old(players)@),
        forall|j: int|
            0 <= j < old(players)@.len() ==> crate::projectile::pos_bounded(
                (#[trigger] old(players)@[j]).pos,
            ) && look_bounded(old(players)@[j].look),
    ensures
        ids_distinct(final(players)@),
        final(players)@ == spec_fire_events(
            old(players)@,
            old(projectiles)@,
            Set::empty(),
            item_events@.map_values(|e: InteractItemEvent| e.client) + block_events@.map_values(
                |e: InteractBlockEvent| e.client,
            ),
            ClassKind::Mage,
            item_events@.len() + block_events@.len() as int,
        ).0,
        final(projectiles)@ == spec_fire_events(
            old(players)@,
            old(projectiles)@,
            Set::empty(),
            item_events@.map_values(|e: InteractItemEvent| e.client) + block_events@.map_values(
                |e: InteractBlockEvent| e.client,
            ),
            ClassKind::Mage,
            item_events@.len() + block_events@.len() as int,
        ).1,
{
    let ghost all = item_events@.map_values(|e: InteractItemEvent| e.client)
        + block_events@.map_values(|e: InteractBlockEvent| e.client);
    let mut clients: Vec<u64> = Vec::new();
    let n1 = item_events.len();
    let mut i: usize = 0;
    while i < n1
        invariant
            n1 == item_events@.len(),
            0 <= i <= n1,
            clients@.len() == i,
            forall|j: int| 0 <= j < i ==> clients@[j] == all[j],
            all == item_events@.map_values(|e: InteractItemEvent| e.client)
                + block_events@.map_values(|e: InteractBlockEvent| e.client),
        decreases n1 - i,
    {
        clients.push(item_events[i].client);
        i = i + 1;
    }
    let n2 = block_events.len();
    let mut j: usize = 0;
    while j < n2
        invariant
            n1 == item_events@.len(),
            n2 == block_events@.len(),
            0 <= j <= n2,
            clients@.len() == n1 + j,
            forall|k: int| 0 <= k < n1 + j ==> clients@[k] == all[k],
            all == item_events@.map_values(|e: InteractItemEvent| e.client)
                + block_events@.map_values(|e: InteractBlockEvent| e.client),
        decreases n2 - j,
    {
        clients.push(block_events[j].client);
        j = j + 1;
    }
    let mut processed: Vec<u64> = Vec::new();
    fire_batch(
        players,
        projectiles,
        &mut processed,
        &clients,
        0,
        ClassKind::Mage,
        Ghost(players@),
        Ghost(projectiles@),
        Ghost(all),
    );
}

} // verus!
