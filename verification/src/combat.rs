//! Melee knockback resolution.
//!
//! A melee interaction knocks the victim back along the horizontal
//! line from attacker to victim, with a fixed vertical lift. A
//! per-victim guard ignores repeat hits within half a second. Sprinting
//! raises both magnitudes, and a rogue holding its signature sword
//! gets a further horizontal bonus. The direction is the floor-rounded
//! unit vector in milli-units, computed with an integer square root.

use crate::classes::{ClassKind, ItemKind};
use crate::events::InteractEntityEvent;
use crate::geom::Vec3Milli;
use crate::player::{ids_distinct, spec_find_player, CombatState, Player};
use crate::projectile::trunc_div;
use vstd::arithmetic::div_mod::lemma_fundamental_div_mod;
use vstd::pervasive::VecAdditionalExecFns;
use vstd::prelude::*;

verus! {

/// Repeat hits on one victim within this many ticks are ignored: half
/// a second at `TICKS_PER_SECOND`.
pub const COMBAT_GUARD_TICKS: i64 = 10;

/// Horizontal knockback in milli-units for a sprinting attacker.
pub const KNOCKBACK_XZ_SPRINT_MILLI: i64 = 18000;

/// Horizontal knockback in milli-units for a walking attacker.
pub const KNOCKBACK_XZ_WALK_MILLI: i64 = 8000;

/// Vertical knockback in milli-units for a sprinting attacker.
pub const KNOCKBACK_Y_SPRINT_MILLI: i64 = 8432;

/// Vertical knockback in milli-units for a walking attacker.
pub const KNOCKBACK_Y_WALK_MILLI: i64 = 6432;

/// Combat participants stay within this many milli-units of the world
/// origin, so squared horizontal distances fit in a machine word.
pub const COMBAT_POS_LIMIT_MILLI: i64 = 1_000_000_000;

/// Ticks stay far from the `i64` edges, so tick differences never
/// overflow.
pub const TICK_LIMIT: i64 = 4_611_686_018_427_387_903;

pub open spec fn combat_pos_bounded(p: Vec3Milli) -> bool {
    &&& -COMBAT_POS_LIMIT_MILLI <= p.x <= COMBAT_POS_LIMIT_MILLI
    &&& -COMBAT_POS_LIMIT_MILLI <= p.y <= COMBAT_POS_LIMIT_MILLI
    &&& -COMBAT_POS_LIMIT_MILLI <= p.z <= COMBAT_POS_LIMIT_MILLI
}

/// The integer square root: the unique `r >= 0` with
/// `r * r <= n < (r + 1) * (r + 1)`.
pub open spec fn spec_isqrt(n: int) -> int {
    choose|r: int| 0 <= r && #[trigger] (r * r) <= n < (r + 1) * (r + 1)
}

proof fn lemma_isqrt_unique(n: int, r1: int, r2: int)
    requires
        0 <= r1 && r1 * r1 <= n < (r1 + 1) * (r1 + 1),
        0 <= r2 && r2 * r2 <= n < (r2 + 1) * (r2 + 1),
    ensures
        r1 == r2,
{
    assert(r1 == r2) by (nonlinear_arith)
        requires
            0 <= r1 && r1 * r1 <= n < (r1 + 1) * (r1 + 1),
            0 <= r2 && r2 * r2 <= n < (r2 + 1) * (r2 + 1),
    ;
}

/// Computes the integer square root by bisection.
pub fn isqrt_u64(n: u64) -> (r: u64)
    ensures
        r * r <= n < (r + 1) * (r + 1),
        r < 4_294_967_296,
        r as int == spec_isqrt(n as int),
{
    let mut lo: u64 = 0;
    let mut hi: u64 = 4_294_967_296;
    proof {
        assert((hi as int) * (hi as int) > n as int) by (nonlinear_arith)
            requires
                hi == 4_294_967_296u64,
                n <= u64::MAX,
        ;
    }
    while lo + 1 < hi
        invariant
            0 <= lo < hi <= 4_294_967_296,
            (lo as int) * (lo as int) <= n as int,
            (hi as int) * (hi as int) > n as int,
        decreases hi - lo,
    {
        let mid = lo + (hi - lo) / 2;
        proof {
            assert(lo < mid < hi);
        }
        if mid <= n / mid {
            proof {
                lemma_fundamental_div_mod(n as int, mid as int);
                assert((mid as int) * (mid as int) <= n as int) by (nonlinear_arith)
                    requires
                        0 < mid,
                        (mid as int) <= (n as int) / (mid as int),
                        (n as int) == (mid as int) * ((n as int) / (mid as int)) + (
                        n as int) % (mid as int),
                        0 <= (n as int) % (mid as int),
                ;
            }
            lo = mid;
        } else {
            proof {
                lemma_fundamental_div_mod(n as int, mid as int);
                assert((mid as int) * (mid as int) > n as int) by (nonlinear_arith)
                    requires
                        0 < mid,
                        (n as int) / (mid as int) < (mid as int),
                        (n as int) == (mid as int) * ((n as int) / (mid as int)) + (
                        n as int) % (mid as int),
                        0 <= (n as int) % (mid as int) < (mid as int),
                ;
            }
            hi = mid;
        }
    }
    proof {
        assert((lo + 1) as int * ((lo + 1) as int) > n as int);
        lemma_isqrt_unique(
            n as int,
            lo as int,
            spec_isqrt(n as int),
        );
    }
    lo
}

/// The knockback direction: the floor-rounded horizontal unit vector
/// from attacker to victim in milli-units, or zero when the two stand
/// on the same vertical line.
pub open spec fn spec_knock_dir(attacker: Vec3Milli, victim: Vec3Milli) -> (int, int) {
    let dx = victim.x - attacker.x;
    let dz = victim.z - attacker.z;
    if dx == 0 && dz == 0 {
        (0, 0)
    } else {
        let l = spec_isqrt(dx * dx + dz * dz);
        (trunc_div(dx * 1000, l), trunc_div(dz * 1000, l))
    }
}

/// The horizontal knockback magnitude in milli-units: sprint decides
/// the base, and the rogue's sword bonus scales it by a fifth more.
pub open spec fn spec_knockback_xz(sprinting: bool, rogue_bonus: bool) -> int {
    let base = if sprinting {
        KNOCKBACK_XZ_SPRINT_MILLI as int
    } else {
        KNOCKBACK_XZ_WALK_MILLI as int
    };
    if rogue_bonus {
        base * 12 / 10
    } else {
        base
    }
}

/// The vertical knockback magnitude in milli-units.
pub open spec fn spec_knockback_y(sprinting: bool) -> int {
    if sprinting {
        KNOCKBACK_Y_SPRINT_MILLI as int
    } else {
        KNOCKBACK_Y_WALK_MILLI as int
    }
}

/// Whether the attacker earns the rogue bonus: a rogue holding the
/// signature wooden sword.
pub open spec fn spec_rogue_bonus(a: Player) -> bool {
    a.class == Some(ClassKind::Rogue) && a.held_item == ItemKind::WoodenSword
}

/// What one melee interaction does. Attacker and victim must be
/// distinct, present and in combat (carrying combat state); a victim
/// hit within the last half second is left alone; otherwise the
/// victim's velocity is fully overwritten by the knockback and the
/// victim's guard tick is set.
pub open spec fn spec_combat_one(
    ps: Seq<Player>,
    tick: i64,
    ev: InteractEntityEvent,
) -> Seq<Player> {
    if ev.client == ev.entity {
        ps
    } else {
        match (spec_find_player(ps, ev.client), spec_find_player(ps, ev.entity)) {
            (Some(ai), Some(vi)) => {
                let a = ps[ai];
                let v = ps[vi];
                if a.combat is None || v.combat is None {
                    ps
                } else if tick - v.combat->Some_0.last_attacked_tick
                    < COMBAT_GUARD_TICKS as int {
                    ps
                } else {
                    let dir = spec_knock_dir(a.pos, v.pos);
                    let h = spec_knockback_xz(a.sprinting, spec_rogue_bonus(a));
                    let new_vel = Vec3Milli {
                        x: trunc_div(dir.0 * h, 1000) as i64,
                        y: spec_knockback_y(a.sprinting) as i64,
                        z: trunc_div(dir.1 * h, 1000) as i64,
                    };
                    ps.update(
                        vi,
                        Player {
                            combat: Some(CombatState { last_attacked_tick: tick }),
                            vel: new_vel,
                            ..v
                        },
                    )
                }
            },
            _ => ps,
        }
    }
}

/// The combat pass over the first `k` interaction events, in order.
pub open spec fn spec_combat_events(
    ps: Seq<Player>,
    tick: i64,
    evs: Seq<InteractEntityEvent>,
    k: int,
) -> Seq<Player>
    decreases k,
{
    if k <= 0 {
        ps
    } else {
        spec_combat_one(spec_combat_events(ps, tick, evs, k - 1), tick, evs[k - 1])
    }
}

/// The eligibility bounds the combat pass needs of a roster: distinct
/// ids, and every combat participant inside the position and tick
/// limits.
pub open spec fn combat_roster_ok(ps: Seq<Player>) -> bool {
    &&& ids_distinct(ps)
    &&& forall|i: int|
        0 <= i < ps.len() && (#[trigger] ps[i]).combat is Some ==> combat_pos_bounded(
            ps[i].pos,
        ) && -TICK_LIMIT <= ps[i].combat->Some_0.last_attacked_tick <= TICK_LIMIT
}

/// Processes the tick's melee interactions, in order: each one either
/// knocks the victim back or is absorbed by the half-second guard.
#[verifier::rlimit(60)]
pub fn combat(current_tick: i64, players: &mut Vec<Player>, events: &Vec<InteractEntityEvent>)
    requires
        combat_roster_ok(old(players)@),
        -TICK_LIMIT <= current_tick <= TICK_LIMIT,
    ensures
        final(players)@ == spec_combat_events(
            old(players)@,
            current_tick,
            events@,
            events@.len() as int,
        ),
{
    let n = events.len();
    let mut i: usize = 0;
    while i < n
        invariant
            n == events@.len(),
            0 <= i <= n,
            -TICK_LIMIT <= current_tick <= TICK_LIMIT,
            combat_roster_ok(players@),
            players@ == spec_combat_events(old(players)@, current_tick, events@, i as int),
        decreases n - i,
    {
        let ghost pre = players@;
        let ev = events[i];
        if ev.client != ev.entity {
            let ai_opt = crate::player::find_player(players, ev.client);
            let vi_opt = crate::player::find_player(players, ev.entity);
            match (ai_opt, vi_opt) {
                (Some(ai), Some(vi)) => {
                    let a = players[ai];
                    let v = players[vi];
                    match (a.combat, v.combat) {
                        (Some(_), Some(vc)) => {
                            if current_tick - vc.last_attacked_tick >= COMBAT_GUARD_TICKS {
                                let dx = v.pos.x - a.pos.x;
                                let dz = v.pos.z - a.pos.z;
                                let (dir_x, dir_z) = if dx == 0 && dz == 0 {
                                    (0i64, 0i64)
                                } else {
                                    proof {
                                        assert(dx * dx >= 0 && dz * dz >= 0 && dx * dx + dz
                                            * dz >= 1) by (nonlinear_arith)
                                            requires
                                                !(dx == 0 && dz == 0),
                                        ;
                                        assert(dx * dx <= 4_000_000_000_000_000_000 && dz
                                            * dz <= 4_000_000_000_000_000_000)
                                            by (nonlinear_arith)
                                            requires
                                                -2_000_000_000 <= dx <= 2_000_000_000,
                                                -2_000_000_000 <= dz <= 2_000_000_000,
                                        ;
                                    }
                                    let sq = (dx * dx + dz * dz) as u64;
                                    let l = isqrt_u64(sq);
                                    proof {
                                        assert(l >= 1) by (nonlinear_arith)
                                            requires
                                                sq >= 1,
                                                l * l <= sq < (l + 1) * (l + 1),
                                        ;
                                        assert(l as int
                                            == spec_isqrt(dx * dx + dz * dz));
                                    }
                                    (
                                        crate::projectile::trunc_div_i64(
                                            dx * 1000,
                                            l as i64,
                                        ),
                                        crate::projectile::trunc_div_i64(
                                            dz * 1000,
                                            l as i64,
                                        ),
                                    )
                                };
                                let bonus = matches!(a.class, Some(ClassKind::Rogue))
                                    && matches!(a.held_item, ItemKind::WoodenSword);
                                let base = if a.sprinting {
                                    KNOCKBACK_XZ_SPRINT_MILLI
                                } else {
                                    KNOCKBACK_XZ_WALK_MILLI
                                };
                                let h = if bonus {
                                    base * 12 / 10
                                } else {
                                    base
                                };
                                let ky = if a.sprinting {
                                    KNOCKBACK_Y_SPRINT_MILLI
                                } else {
                                    KNOCKBACK_Y_WALK_MILLI
                                };
                                proof {
                                    if !(dx == 0 && dz == 0) {
                                        let l = spec_isqrt(dx * dx + dz * dz);
                                        lemma_trunc_dir_bound(dx as int, l);
                                        lemma_trunc_dir_bound(dz as int, l);
                                        assert(dir_x == trunc_div(dx * 1000, l));
                                        assert(dir_z == trunc_div(dz * 1000, l));
                                    }
                                    assert(-2_000_000_000_000 <= dir_x
                                        <= 2_000_000_000_000);
                                    assert(-2_000_000_000_000 <= dir_z
                                        <= 2_000_000_000_000);
                                    assert(0 < h <= 21600);
                                    assert(-50_000_000_000_000_000 <= dir_x * h
                                        <= 50_000_000_000_000_000) by (nonlinear_arith)
                                        requires
                                            -2_000_000_000_000 <= dir_x
                                                <= 2_000_000_000_000,
                                            0 < h <= 21600,
                                    ;
                                    assert(-50_000_000_000_000_000 <= dir_z * h
                                        <= 50_000_000_000_000_000) by (nonlinear_arith)
                                        requires
                                            -2_000_000_000_000 <= dir_z
                                                <= 2_000_000_000_000,
                                            0 < h <= 21600,
                                    ;
                                }
                                let new_vel = Vec3Milli {
                                    x: crate::projectile::trunc_div_i64(dir_x * h, 1000),
                                    y: ky,
                                    z: crate::projectile::trunc_div_i64(dir_z * h, 1000),
                                };
                                players.set(
                                    vi,
                                    Player {
                                        combat: Some(
                                            CombatState {
                                                last_attacked_tick: current_tick,
                                            },
                                        ),
                                        vel: new_vel,
                                        ..v
                                    },
                                );
                                proof {
                                    assert(ids_distinct(players@)) by {
                                        assert forall|x: int, y: int|
                                            0 <= x < y < players@.len() implies (
                                            #[trigger] players@[x]).id != (
                                            #[trigger] players@[y]).id by {
                                            assert(pre[x].id != pre[y].id);
                                        }
                                    }
                                }
                            }
                        },
                        _ => {},
                    }
                },
                _ => {},
            }
        }
        proof {
            assert(spec_combat_events(old(players)@, current_tick, events@, i + 1)
                == spec_combat_one(pre, current_tick, events@[i as int]));
        }
        i = i + 1;
    }
}

/// The four knockback magnitudes, written out: sprinting gives the
/// strong pair, the rogue's sword bonus scales the horizontal part by
/// a fifth more.
pub proof fn lemma_knockback_magnitudes()
    ensures
        spec_knockback_xz(true, false) == 18000,
        spec_knockback_y(true) == 8432,
        spec_knockback_xz(false, false) == 8000,
        spec_knockback_y(false) == 6432,
        spec_knockback_xz(true, true) == 21600,
        spec_knockback_xz(false, true) == 9600,
{
}

/// Along an axis the knockback direction is exactly the unit vector:
/// a victim displaced `dx > 0` east of the attacker is knocked due
/// east with the full unit magnitude.
pub proof fn lemma_knock_dir_axis(a: Vec3Milli, v: Vec3Milli)
    requires
        v.x - a.x >= 1,
        v.z == a.z,
    ensures
        spec_knock_dir(a, v) == (1000int, 0int),
{
    let dx = v.x - a.x;
    assert(dx * dx <= dx * dx + 0 * 0 < (dx + 1) * (dx + 1)) by (nonlinear_arith)
        requires
            dx >= 1,
    ;
    lemma_isqrt_unique(dx * dx + 0 * 0, dx, spec_isqrt(dx * dx + 0 * 0));
    let l = spec_isqrt(dx * dx + 0 * 0);
    assert(l == dx);
    assert((dx * 1000) / dx == 1000) by (nonlinear_arith)
        requires
            dx >= 1,
    ;
    assert(trunc_div(0int * 1000, l) == 0) by {
        vstd::arithmetic::div_mod::lemma_div_of0(l);
    }
}

/// The half-second reentry guard: when a victim was knocked back at
/// `tick1`, a second interaction against them within the guard
/// interval changes nothing at all.
pub proof fn lemma_combat_guard_absorbs(
    ps: Seq<Player>,
    tick1: i64,
    tick2: i64,
    ev: InteractEntityEvent,
)
    requires
        spec_find_player(ps, ev.entity) matches Some(vi) && ps[vi].combat == Some(
            CombatState { last_attacked_tick: tick1 },
        ),
        tick2 - tick1 < COMBAT_GUARD_TICKS as int,
    ensures
        spec_combat_one(ps, tick2, ev) == ps,
{
}

/// Knockback applies once, not twice: an interaction that lands at
/// `tick1` sets the victim's guard tick, and the same interaction
/// replayed within the guard interval leaves the roster exactly as the
/// first one left it. After the guard interval has passed, the same
/// interaction knocks the victim back again.
pub proof fn lemma_combat_double_hit(
    ps: Seq<Player>,
    tick1: i64,
    tick2: i64,
    tick3: i64,
    ev: InteractEntityEvent,
)
    requires
        ids_distinct(ps),
        ev.client != ev.entity,
        spec_find_player(ps, ev.client) matches Some(ai) && ps[ai].combat is Some,
        spec_find_player(ps, ev.entity) matches Some(vi) && ps[vi].combat is Some
            && tick1 - ps[vi].combat->Some_0.last_attacked_tick >= COMBAT_GUARD_TICKS as int,
        tick2 - tick1 < COMBAT_GUARD_TICKS as int,
        tick3 - tick1 >= COMBAT_GUARD_TICKS as int,
    ensures
        spec_combat_one(ps, tick1, ev) != ps ==> spec_combat_one(
            spec_combat_one(ps, tick1, ev),
            tick2,
            ev,
        ) == spec_combat_one(ps, tick1, ev),
        ({
            let ps1 = spec_combat_one(ps, tick1, ev);
            let vi = spec_find_player(ps, ev.entity)->Some_0;
            ps1[vi].combat == Some(CombatState { last_attacked_tick: tick1 })
                && spec_find_player(ps1, ev.entity) == Some(vi)
                && spec_combat_one(ps1, tick3, ev)[vi].combat == Some(
                CombatState { last_attacked_tick: tick3 },
            )
        }),
{
    let ai = spec_find_player(ps, ev.client)->Some_0;
    let vi = spec_find_player(ps, ev.entity)->Some_0;
    let v = ps[vi];
    let ps1 = spec_combat_one(ps, tick1, ev);
    crate::player::lemma_find_player_stable(ps, vi, ps1[vi], ev.entity);
    crate::player::lemma_find_player_stable(ps, vi, ps1[vi], ev.client);
    assert(spec_find_player(ps1, ev.entity) == Some(vi));
    assert(ps1[vi].combat == Some(CombatState { last_attacked_tick: tick1 }));
    lemma_combat_guard_absorbs(ps1, tick1, tick2, ev);
    let ps3 = spec_combat_one(ps1, tick3, ev);
    assert(spec_find_player(ps1, ev.client) == Some(ai));
    assert(ps1[ai].combat is Some);
    assert(ps3[vi].combat == Some(CombatState { last_attacked_tick: tick3 }));
}

/// The horizontal direction components carry at most one thousand
/// times the distance, so scaling them by a knockback magnitude stays
/// far inside the machine range.
proof fn lemma_trunc_dir_bound(d: int, l: int)
    requires
        -2_000_000_000 <= d <= 2_000_000_000,
        l >= 1,
    ensures
        -2_000_000_000_000 <= trunc_div(d * 1000, l) <= 2_000_000_000_000,
{
    if d >= 0 {
        lemma_fundamental_div_mod(d * 1000, l);
        assert(0 <= (d * 1000) / l <= d * 1000) by (nonlinear_arith)
            requires
                l >= 1,
                d >= 0,
                d * 1000 == l * ((d * 1000) / l) + (d * 1000) % l,
                0 <= (d * 1000) % l < l,
        ;
        assert(d * 1000 <= 2_000_000_000_000) by (nonlinear_arith)
            requires
                d <= 2_000_000_000,
        ;
    } else {
        lemma_fundamental_div_mod(-(d * 1000), l);
        assert(0 <= (-(d * 1000)) / l <= -(d * 1000)) by (nonlinear_arith)
            requires
                l >= 1,
                d < 0,
                -(d * 1000) == l * ((-(d * 1000)) / l) + (-(d * 1000)) % l,
                0 <= (-(d * 1000)) % l < l,
        ;
        assert(-(d * 1000) <= 2_000_000_000_000) by (nonlinear_arith)
            requires
                -2_000_000_000 <= d,
        ;
    }
}

} // verus!
