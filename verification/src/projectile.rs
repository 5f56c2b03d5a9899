//! Projectile motion and voxel collision.
//!
//! Both projectile kinds advance by one twentieth of their velocity per
//! tick; the arrow additionally takes a gravity impulse and drag.
//! Collision is resolved by stepped sampling along the velocity, not by
//! a continuous ray: ten sample points at fractional offsets, quantised
//! to lattice cells, consecutive duplicates skipped, and the first
//! non-air cell ends the flight. All arithmetic is exact integer
//! arithmetic on milli-units; fractional scaling rounds toward zero.

use crate::area::Area;
use crate::block::Block;
use crate::geom::{spec_cell_of, LatticePos, Vec3Milli};
use crate::grid::VoxelGrid;
use vstd::arithmetic::div_mod::lemma_fundamental_div_mod;
use vstd::pervasive::VecAdditionalExecFns;
use vstd::prelude::*;

verus! {

/// The two projectile kinds the abilities spawn.
#[derive(Clone, Copy, Debug, PartialEq, Eq, Structural)]
pub enum ProjectileKind {
    Arrow,
    Fireball,
}

/// One in-flight ability effect, owned by the simulation.
#[derive(Clone, Copy, Debug, PartialEq, Eq, Structural)]
pub struct Projectile {
    /// Entity id of the participant who fired it.
    pub owner: u64,
    pub kind: ProjectileKind,
    pub pos: Vec3Milli,
    pub vel: Vec3Milli,
    /// The fireball flies without gravity on the host as well.
    pub gravity_disabled: bool,
    /// Marked when the projectile left bounds or hit a block; it is
    /// removed from the set at the end of the tick.
    pub despawned: bool,
}

/// Velocity components stay within this many milli-units per second.
pub const VEL_LIMIT_MILLI: i64 = 1_000_000_000_000;

/// Position components stay within this many milli-units.
pub const POS_LIMIT_MILLI: i64 = 1_000_000_000_000_000;

pub open spec fn vel_bounded(v: Vec3Milli) -> bool {
    &&& -VEL_LIMIT_MILLI <= v.x <= VEL_LIMIT_MILLI
    &&& -VEL_LIMIT_MILLI <= v.y <= VEL_LIMIT_MILLI
    &&& -VEL_LIMIT_MILLI <= v.z <= VEL_LIMIT_MILLI
}

pub open spec fn pos_bounded(p: Vec3Milli) -> bool {
    &&& -POS_LIMIT_MILLI <= p.x <= POS_LIMIT_MILLI
    &&& -POS_LIMIT_MILLI <= p.y <= POS_LIMIT_MILLI
    &&& -POS_LIMIT_MILLI <= p.z <= POS_LIMIT_MILLI
}

/// Division rounding toward zero, the rounding of the fixed-point
/// scalings in this module. The divisor is positive.
pub open spec fn trunc_div(a: int, d: int) -> int {
    if a >= 0 {
        a / d
    } else {
        -((-a) / d)
    }
}

/// Truncating division by a positive divisor.
pub fn trunc_div_i64(a: i64, d: i64) -> (q: i64)
    requires
        0 < d,
        i64::MIN < a,
    ensures
        q == trunc_div(a as int, d as int),
{
    if a >= 0 {
        let q = (a as u64) / (d as u64);
        proof {
            lemma_fundamental_div_mod(a as int, d as int);
        }
        q as i64
    } else {
        let m = (-a) as u64;
        let q = m / (d as u64);
        proof {
            lemma_fundamental_div_mod(m as int, d as int);
        }
        -(q as i64)
    }
}

/// One arrow integration step: gravity impulse on y, one percent drag
/// on all axes (rounded toward zero), then a twentieth of the velocity
/// added to the position (rounded toward zero).
pub open spec fn spec_arrow_step(pos: Vec3Milli, vel: Vec3Milli) -> (Vec3Milli, Vec3Milli) {
    let v1y = vel.y - 1000;
    let v2 = Vec3Milli {
        x: trunc_div(vel.x * 99, 100) as i64,
        y: trunc_div(v1y * 99, 100) as i64,
        z: trunc_div(vel.z * 99, 100) as i64,
    };
    let p2 = Vec3Milli {
        x: (pos.x + trunc_div(v2.x as int, 20)) as i64,
        y: (pos.y + trunc_div(v2.y as int, 20)) as i64,
        z: (pos.z + trunc_div(v2.z as int, 20)) as i64,
    };
    (p2, v2)
}

/// One fireball integration step: no gravity, no drag; a twentieth of
/// the velocity added to the position (rounded toward zero).
pub open spec fn spec_fireball_step(pos: Vec3Milli, vel: Vec3Milli) -> Vec3Milli {
    Vec3Milli {
        x: (pos.x + trunc_div(vel.x as int, 20)) as i64,
        y: (pos.y + trunc_div(vel.y as int, 20)) as i64,
        z: (pos.z + trunc_div(vel.z as int, 20)) as i64,
    }
}

/// One movement pass entry for an arrow; other kinds are untouched.
pub open spec fn spec_arrow_move(p: Projectile) -> Projectile {
    if p.kind == ProjectileKind::Arrow {
        let stepped = spec_arrow_step(p.pos, p.vel);
        Projectile { pos: stepped.0, vel: stepped.1, ..p }
    } else {
        p
    }
}

/// Advances every arrow by one tick of stepped motion.
pub fn arrow_movement(projectiles: &mut Vec<Projectile>)
    requires
        forall|i: int|
            0 <= i < old(projectiles)@.len() && (#[trigger] old(projectiles)@[i]).kind
                == ProjectileKind::Arrow ==> vel_bounded(old(projectiles)@[i].vel)
                && pos_bounded(old(projectiles)@[i].pos),
    ensures
        final(projectiles)@.len() == old(projectiles)@.len(),
        forall|i: int|
            0 <= i < old(projectiles)@.len() ==> final(projectiles)@[i] == spec_arrow_move(
                #[trigger] old(projectiles)@[i],
            ),
{
    let n = projectiles.len();
    let mut i: usize = 0;
    while i < n
        invariant
            n == projectiles@.len(),
            n == old(projectiles)@.len(),
            0 <= i <= n,
            forall|j: int|
                0 <= j < n && (#[trigger] old(projectiles)@[j]).kind == ProjectileKind::Arrow
                    ==> vel_bounded(old(projectiles)@[j].vel) && pos_bounded(
                    old(projectiles)@[j].pos,
                ),
            forall|j: int|
                0 <= j < i ==> projectiles@[j] == (if (
                #[trigger] old(projectiles)@[j]).kind == ProjectileKind::Arrow {
                    let p = old(projectiles)@[j];
                    let stepped = spec_arrow_step(p.pos, p.vel);
                    Projectile { pos: stepped.0, vel: stepped.1, ..p }
                } else {
                    old(projectiles)@[j]
                }),
            forall|j: int| i <= j < n ==> projectiles@[j] == old(projectiles)@[j],
        decreases n - i,
    {
        let p = projectiles[i];
        if matches!(p.kind, ProjectileKind::Arrow) {
            let vy1 = p.vel.y - 1000;
            let v2 = Vec3Milli {
                x: trunc_div_i64(p.vel.x * 99, 100),
                y: trunc_div_i64(vy1 * 99, 100),
                z: trunc_div_i64(p.vel.z * 99, 100),
            };
            proof {
                lemma_trunc_div_bound(p.vel.x * 99, 100);
                lemma_trunc_div_bound(vy1 * 99, 100);
                lemma_trunc_div_bound(p.vel.z * 99, 100);
                lemma_trunc_div_bound(v2.x as int, 20);
                lemma_trunc_div_bound(v2.y as int, 20);
                lemma_trunc_div_bound(v2.z as int, 20);
            }
            let p2 = Vec3Milli {
                x: p.pos.x + trunc_div_i64(v2.x, 20),
                y: p.pos.y + trunc_div_i64(v2.y, 20),
                z: p.pos.z + trunc_div_i64(v2.z, 20),
            };
            projectiles.set(i, Projectile { pos: p2, vel: v2, ..p });
        }
        i = i + 1;
    }
}

/// Truncating division shrinks the magnitude: `|a / d| <= |a|`.
pub proof fn lemma_trunc_div_bound(a: int, d: int)
    requires
        0 < d,
    ensures
        a >= 0 ==> 0 <= trunc_div(a, d) <= a,
        a < 0 ==> a <= trunc_div(a, d) <= 0,
    decreases if a >= 0 {
        0int
    } else {
        1int
    },
{
    if a >= 0 {
        lemma_fundamental_div_mod(a, d);
        assert(a / d * d <= a) by (nonlinear_arith)
            requires
                0 < d,
                0 <= a,
                a == d * (a / d) + a % d,
                0 <= a % d,
        ;
        assert(0 <= a / d) by (nonlinear_arith)
            requires
                0 < d,
                0 <= a,
                a == d * (a / d) + a % d,
                0 <= a % d < d,
        ;
        assert(a / d <= a) by (nonlinear_arith)
            requires
                0 < d,
                0 <= a / d,
                a / d * d <= a,
        ;
    } else {
        lemma_trunc_div_bound(-a, d);
    }
}

/// One movement pass entry for a fireball; other kinds are untouched.
pub open spec fn spec_fireball_move(p: Projectile) -> Projectile {
    if p.kind == ProjectileKind::Fireball {
        Projectile { pos: spec_fireball_step(p.pos, p.vel), ..p }
    } else {
        p
    }
}

/// Advances every fireball by one tick of stepped motion.
pub fn fireball_movement(projectiles: &mut Vec<Projectile>)
    requires
        forall|i: int|
            0 <= i < old(projectiles)@.len() && (#[trigger] old(projectiles)@[i]).kind
                == ProjectileKind::Fireball ==> vel_bounded(old(projectiles)@[i].vel)
                && pos_bounded(old(projectiles)@[i].pos),
    ensures
        final(projectiles)@.len() == old(projectiles)@.len(),
        forall|i: int|
            0 <= i < old(projectiles)@.len() ==> final(projectiles)@[i]
                == spec_fireball_move(#[trigger] old(projectiles)@[i]),
{
    let n = projectiles.len();
    let mut i: usize = 0;
    while i < n
        invariant
            n == projectiles@.len(),
            n == old(projectiles)@.len(),
            0 <= i <= n,
            forall|j: int|
                0 <= j < n && (#[trigger] old(projectiles)@[j]).kind
                    == ProjectileKind::Fireball ==> vel_bounded(old(projectiles)@[j].vel)
                    && pos_bounded(old(projectiles)@[j].pos),
            forall|j: int|
                0 <= j < i ==> projectiles@[j] == (if (
                #[trigger] old(projectiles)@[j]).kind == ProjectileKind::Fireball {
                    let p = old(projectiles)@[j];
                    Projectile { pos: spec_fireball_step(p.pos, p.vel), ..p }
                } else {
                    old(projectiles)@[j]
                }),
            forall|j: int| i <= j < n ==> projectiles@[j] == old(projectiles)@[j],
        decreases n - i,
    {
        let p = projectiles[i];
        if matches!(p.kind, ProjectileKind::Fireball) {
            proof {
                lemma_trunc_div_bound(p.vel.x as int, 20);
                lemma_trunc_div_bound(p.vel.y as int, 20);
                lemma_trunc_div_bound(p.vel.z as int, 20);
            }
            let p2 = Vec3Milli {
                x: p.pos.x + trunc_div_i64(p.vel.x, 20),
                y: p.pos.y + trunc_div_i64(p.vel.y, 20),
                z: p.pos.z + trunc_div_i64(p.vel.z, 20),
            };
            projectiles.set(i, Projectile { pos: p2, ..p });
        }
        i = i + 1;
    }
}

/// The volume an arrow may fly in; leaving it despawns the arrow.
pub open spec fn spec_arrow_bounds() -> Area {
    Area {
        min: LatticePos { x: -100i32, y: 0, z: -100i32 },
        max: LatticePos { x: 100, y: 500, z: 100 },
    }
}

/// The volume a fireball may fly in; leaving it despawns the fireball.
pub open spec fn spec_fireball_bounds() -> Area {
    Area {
        min: LatticePos { x: -100i32, y: 0, z: -100i32 },
        max: LatticePos { x: 100, y: 100, z: 100 },
    }
}

/// One out-of-bounds pass entry for an arrow.
pub open spec fn spec_arrow_oob(p: Projectile) -> Projectile {
    if p.kind == ProjectileKind::Arrow && !spec_arrow_bounds().spec_contains(
        spec_cell_of(p.pos),
    ) {
        Projectile { despawned: true, ..p }
    } else {
        p
    }
}

/// Marks every arrow whose containing lattice cell left the arrow
/// bounds. This check is independent of collision: an arrow is removed
/// even if it never registers a block hit.
pub fn arrow_oob(projectiles: &mut Vec<Projectile>)
    requires
        forall|i: int|
            0 <= i < old(projectiles)@.len() && (#[trigger] old(projectiles)@[i]).kind
                == ProjectileKind::Arrow ==> crate::geom::in_lattice_range(
                old(projectiles)@[i].pos,
            ),
    ensures
        final(projectiles)@.len() == old(projectiles)@.len(),
        forall|i: int|
            0 <= i < old(projectiles)@.len() ==> final(projectiles)@[i] == spec_arrow_oob(
                #[trigger] old(projectiles)@[i],
            ),
{
    let bounds = Area::new(
        LatticePos { x: -100, y: 0, z: -100 },
        LatticePos { x: 100, y: 500, z: 100 },
    );
    let n = projectiles.len();
    let mut i: usize = 0;
    while i < n
        invariant
            bounds == spec_arrow_bounds(),
            n == projectiles@.len(),
            n == old(projectiles)@.len(),
            0 <= i <= n,
            forall|j: int|
                0 <= j < n && (#[trigger] old(projectiles)@[j]).kind == ProjectileKind::Arrow
                    ==> crate::geom::in_lattice_range(old(projectiles)@[j].pos),
            forall|j: int|
                0 <= j < i ==> projectiles@[j] == (if (
                #[trigger] old(projectiles)@[j]).kind == ProjectileKind::Arrow
                    && !spec_arrow_bounds().spec_contains(
                    spec_cell_of(old(projectiles)@[j].pos),
                ) {
                    Projectile { despawned: true, ..old(projectiles)@[j] }
                } else {
                    old(projectiles)@[j]
                }),
            forall|j: int| i <= j < n ==> projectiles@[j] == old(projectiles)@[j],
        decreases n - i,
    {
        let p = projectiles[i];
        if matches!(p.kind, ProjectileKind::Arrow) {
            let cell = crate::geom::cell_of(p.pos);
            if !bounds.contains(cell) {
                projectiles.set(i, Projectile { despawned: true, ..p });
            }
        }
        i = i + 1;
    }
}

/// One out-of-bounds pass entry for a fireball.
pub open spec fn spec_fireball_oob(p: Projectile) -> Projectile {
    if p.kind == ProjectileKind::Fireball && !spec_fireball_bounds().spec_contains(
        spec_cell_of(p.pos),
    ) {
        Projectile { despawned: true, ..p }
    } else {
        p
    }
}

/// Marks every fireball whose containing lattice cell left the fireball
/// bounds.
pub fn fireball_oob(projectiles: &mut Vec<Projectile>)
    requires
        forall|i: int|
            0 <= i < old(projectiles)@.len() && (#[trigger] old(projectiles)@[i]).kind
                == ProjectileKind::Fireball ==> crate::geom::in_lattice_range(
                old(projectiles)@[i].pos,
            ),
    ensures
        final(projectiles)@.len() == old(projectiles)@.len(),
        forall|i: int|
            0 <= i < old(projectiles)@.len() ==> final(projectiles)@[i]
                == spec_fireball_oob(#[trigger] old(projectiles)@[i]),
{
    let bounds = Area::new(
        LatticePos { x: -100, y: 0, z: -100 },
        LatticePos { x: 100, y: 100, z: 100 },
    );
    let n = projectiles.len();
    let mut i: usize = 0;
    while i < n
        invariant
            bounds == spec_fireball_bounds(),
            n == projectiles@.len(),
            n == old(projectiles)@.len(),
            0 <= i <= n,
            forall|j: int|
                0 <= j < n && (#[trigger] old(projectiles)@[j]).kind
                    == ProjectileKind::Fireball ==> crate::geom::in_lattice_range(
                    old(projectiles)@[j].pos,
                ),
            forall|j: int|
                0 <= j < i ==> projectiles@[j] == (if (
                #[trigger] old(projectiles)@[j]).kind == ProjectileKind::Fireball
                    && !spec_fireball_bounds().spec_contains(
                    spec_cell_of(old(projectiles)@[j].pos),
                ) {
                    Projectile { despawned: true, ..old(projectiles)@[j] }
                } else {
                    old(projectiles)@[j]
                }),
            forall|j: int| i <= j < n ==> projectiles@[j] == old(projectiles)@[j],
        decreases n - i,
    {
        let p = projectiles[i];
        if matches!(p.kind, ProjectileKind::Fireball) {
            let cell = crate::geom::cell_of(p.pos);
            if !bounds.contains(cell) {
                projectiles.set(i, Projectile { despawned: true, ..p });
            }
        }
        i = i + 1;
    }
}

/// The sample point at fractional offset `i / 200` of the velocity
/// along the flight path (rounded toward zero).
pub open spec fn spec_sample_point(pos: Vec3Milli, vel: Vec3Milli, i: int) -> Vec3Milli {
    Vec3Milli {
        x: (pos.x + trunc_div(vel.x * i, 200)) as i64,
        y: (pos.y + trunc_div(vel.y * i, 200)) as i64,
        z: (pos.z + trunc_div(vel.z * i, 200)) as i64,
    }
}

/// All ten sample points quantise to lattice cells that fit in `i32`.
pub open spec fn samples_in_range(pos: Vec3Milli, vel: Vec3Milli) -> bool {
    forall|i: int| 0 <= i < 10 ==> crate::geom::in_lattice_range(#[trigger] spec_sample_point(pos, vel, i))
}

/// The stepped collision scan from sample `i` onward: skip a sample
/// that quantises to the same cell as the immediately preceding sample,
/// walk on through cells the grid does not cover and through air, and
/// stop at the first covered non-air cell.
pub open spec fn spec_scan_hit(
    g: Map<LatticePos, Block>,
    pos: Vec3Milli,
    vel: Vec3Milli,
    i: int,
    last: Option<LatticePos>,
) -> Option<LatticePos>
    decreases 10 - i,
{
    if i < 0 || i >= 10 {
        None
    } else {
        let c = spec_cell_of(spec_sample_point(pos, vel, i));
        if last == Some(c) {
            spec_scan_hit(g, pos, vel, i + 1, last)
        } else if g.dom().contains(c) && !(g[c] is Air) {
            Some(c)
        } else {
            spec_scan_hit(g, pos, vel, i + 1, Some(c))
        }
    }
}

/// Runs the stepped collision scan for one projectile: ten samples
/// along the velocity, consecutive duplicate cells skipped, first
/// covered non-air cell returned.
pub fn find_hit_cell(grid: &VoxelGrid, pos: Vec3Milli, vel: Vec3Milli) -> (r: Option<
    LatticePos,
>)
    requires
        grid.wf(),
        vel_bounded(vel),
        samples_in_range(pos, vel),
    ensures
        r == spec_scan_hit(grid@, pos, vel, 0, None),
        r matches Some(c) ==> grid@.dom().contains(c) && !(grid@[c] is Air),
{
    let mut last: Option<LatticePos> = None;
    let mut i: usize = 0;
    while i < 10
        invariant
            grid.wf(),
            vel_bounded(vel),
            samples_in_range(pos, vel),
            0 <= i <= 10,
            spec_scan_hit(grid@, pos, vel, 0, None) == spec_scan_hit(
                grid@,
                pos,
                vel,
                i as int,
                last,
            ),
        decreases 10 - i,
    {
        proof {
            lemma_trunc_div_bound(vel.x * (i as int), 200);
            lemma_trunc_div_bound(vel.y * (i as int), 200);
            lemma_trunc_div_bound(vel.z * (i as int), 200);
            assert(-9 * VEL_LIMIT_MILLI <= vel.x * (i as int) <= 9 * VEL_LIMIT_MILLI)
                by (nonlinear_arith)
                requires
                    0 <= i < 10,
                    -VEL_LIMIT_MILLI <= vel.x <= VEL_LIMIT_MILLI,
            ;
            assert(-9 * VEL_LIMIT_MILLI <= vel.y * (i as int) <= 9 * VEL_LIMIT_MILLI)
                by (nonlinear_arith)
                requires
                    0 <= i < 10,
                    -VEL_LIMIT_MILLI <= vel.y <= VEL_LIMIT_MILLI,
            ;
            assert(-9 * VEL_LIMIT_MILLI <= vel.z * (i as int) <= 9 * VEL_LIMIT_MILLI)
                by (nonlinear_arith)
                requires
                    0 <= i < 10,
                    -VEL_LIMIT_MILLI <= vel.z <= VEL_LIMIT_MILLI,
            ;
            assert(crate::geom::in_lattice_range(spec_sample_point(pos, vel, i as int)));
        }
        let sample = Vec3Milli {
            x: pos.x + trunc_div_i64(vel.x * (i as i64), 200),
            y: pos.y + trunc_div_i64(vel.y * (i as i64), 200),
            z: pos.z + trunc_div_i64(vel.z * (i as i64), 200),
        };
        let c = crate::geom::cell_of(sample);
        proof {
            assert(c == spec_cell_of(spec_sample_point(pos, vel, i as int)));
        }
        let mut skip = false;
        if let Some(lc) = last {
            if lc == c {
                skip = true;
            }
        }
        if !skip {
            last = Some(c);
            match grid.get(c) {
                Some(b) => {
                    if !b.is_air() {
                        return Some(c);
                    }
                },
                None => {},
            }
        }
        i = i + 1;
    }
    None
}

/// Clears the cell at `p` when the grid covers it with a destructible
/// material; otherwise leaves the grid unchanged.
pub open spec fn spec_clear_wool(g: Map<LatticePos, Block>, p: LatticePos) -> Map<
    LatticePos,
    Block,
> {
    if g.dom().contains(p) && g[p].spec_destructible() {
        g.insert(p, Block::Air)
    } else {
        g
    }
}

fn clear_wool(grid: &mut VoxelGrid, p: LatticePos)
    requires
        old(grid).wf(),
    ensures
        final(grid).wf(),
        final(grid)@ == spec_clear_wool(old(grid)@, p),
{
    match grid.get(p) {
        Some(b) => {
            if b.is_destructible() {
                grid.set(p, Block::Air);
            }
        },
        None => {},
    }
}

/// What one arrow does to the world: nothing without a hit; on a hit,
/// the hit cell is cleared if destructible and the arrow despawns.
pub open spec fn spec_arrow_impact_one(g: Map<LatticePos, Block>, p: Projectile) -> (
    Map<LatticePos, Block>,
    Projectile,
) {
    if p.kind != ProjectileKind::Arrow {
        (g, p)
    } else {
        match spec_scan_hit(g, p.pos, p.vel, 0, None) {
            None => (g, p),
            Some(c) => (spec_clear_wool(g, c), Projectile { despawned: true, ..p }),
        }
    }
}

/// The arrow collision pass over the first `k` projectiles, threading
/// the grid through in order.
pub open spec fn spec_arrow_pass(
    g: Map<LatticePos, Block>,
    s: Seq<Projectile>,
    k: int,
) -> (Map<LatticePos, Block>, Seq<Projectile>)
    decreases k,
{
    if k <= 0 {
        (g, s)
    } else {
        let prev = spec_arrow_pass(g, s, k - 1);
        let st = spec_arrow_impact_one(prev.0, prev.1[k - 1]);
        (st.0, prev.1.update(k - 1, st.1))
    }
}

proof fn lemma_arrow_pass_untouched(g: Map<LatticePos, Block>, s: Seq<Projectile>, k: int)
    requires
        0 <= k <= s.len(),
    ensures
        spec_arrow_pass(g, s, k).1.len() == s.len(),
        forall|j: int| k <= j < s.len() ==> spec_arrow_pass(g, s, k).1[j] == s[j],
    decreases k,
{
    if k > 0 {
        lemma_arrow_pass_untouched(g, s, k - 1);
    }
}

/// The arrow pass only flips despawn marks and clears covered cells:
/// every projectile keeps its motion state, and the covered domain
/// does not change.
pub proof fn lemma_arrow_pass_frame(g: Map<LatticePos, Block>, s: Seq<Projectile>, k: int)
    requires
        0 <= k <= s.len(),
    ensures
        spec_arrow_pass(g, s, k).1.len() == s.len(),
        forall|j: int|
            0 <= j < s.len() ==> {
                let q = #[trigger] spec_arrow_pass(g, s, k).1[j];
                q.pos == s[j].pos && q.vel == s[j].vel && q.kind == s[j].kind && q.owner
                    == s[j].owner && q.gravity_disabled == s[j].gravity_disabled
            },
        spec_arrow_pass(g, s, k).0.dom() == g.dom(),
    decreases k,
{
    if k > 0 {
        lemma_arrow_pass_frame(g, s, k - 1);
        let prev = spec_arrow_pass(g, s, k - 1);
        let st = spec_arrow_impact_one(prev.0, prev.1[k - 1]);
        assert(st.0.dom() =~= prev.0.dom());
    } else {
        assert(spec_arrow_pass(g, s, 0).0.dom() =~= g.dom());
    }
}

/// Resolves collisions for every arrow, in order: the first covered
/// non-air sample cell clears (if destructible) and despawns the arrow.
/// Collision runs before motion, so an arrow cannot hit a block and
/// keep moving in the same tick.
pub fn arrow_intersection(projectiles: &mut Vec<Projectile>, grid: &mut VoxelGrid)
    requires
        old(grid).wf(),
        forall|j: int|
            0 <= j < old(projectiles)@.len() && (#[trigger] old(projectiles)@[j]).kind
                == ProjectileKind::Arrow ==> vel_bounded(old(projectiles)@[j].vel)
                && samples_in_range(old(projectiles)@[j].pos, old(projectiles)@[j].vel),
    ensures
        final(grid).wf(),
        final(grid)@ == spec_arrow_pass(
            old(grid)@,
            old(projectiles)@,
            old(projectiles)@.len() as int,
        ).0,
        final(projectiles)@ == spec_arrow_pass(
            old(grid)@,
            old(projectiles)@,
            old(projectiles)@.len() as int,
        ).1,
{
    let n = projectiles.len();
    let mut i: usize = 0;
    while i < n
        invariant
            grid.wf(),
            n == old(projectiles)@.len(),
            projectiles@.len() == n,
            0 <= i <= n,
            forall|j: int|
                0 <= j < n && (#[trigger] old(projectiles)@[j]).kind == ProjectileKind::Arrow
                    ==> vel_bounded(old(projectiles)@[j].vel) && samples_in_range(
                    old(projectiles)@[j].pos,
                    old(projectiles)@[j].vel,
                ),
            grid@ == spec_arrow_pass(old(grid)@, old(projectiles)@, i as int).0,
            projectiles@ == spec_arrow_pass(old(grid)@, old(projectiles)@, i as int).1,
        decreases n - i,
    {
        proof {
            lemma_arrow_pass_untouched(old(grid)@, old(projectiles)@, i as int);
        }
        let p = projectiles[i];
        proof {
            assert(p == old(projectiles)@[i as int]);
        }
        let ghost gpre = grid@;
        let ghost spre = projectiles@;
        if matches!(p.kind, ProjectileKind::Arrow) {
            match find_hit_cell(grid, p.pos, p.vel) {
                Some(c) => {
                    clear_wool(grid, c);
                    projectiles.set(i, Projectile { despawned: true, ..p });
                },
                None => {},
            }
        }
        proof {
            let st = spec_arrow_impact_one(gpre, p);
            assert(grid@ == st.0);
            assert(projectiles@ =~= spre.update(i as int, st.1));
        }
        i = i + 1;
    }
}

/// Shifts a lattice position by one cell along the given axes.
pub open spec fn spec_shift(c: LatticePos, dx: int, dy: int, dz: int) -> LatticePos {
    LatticePos { x: (c.x + dx) as i32, y: (c.y + dy) as i32, z: (c.z + dz) as i32 }
}

/// The fireball's area detonation at hit cell `c`: the six
/// face-adjacent cells and the hit cell itself are cleared wherever
/// they hold a destructible material, in a fixed order.
pub open spec fn spec_blast(g: Map<LatticePos, Block>, c: LatticePos) -> Map<
    LatticePos,
    Block,
> {
    let g1 = spec_clear_wool(g, spec_shift(c, -1, 0, 0));
    let g2 = spec_clear_wool(g1, spec_shift(c, 0, -1, 0));
    let g3 = spec_clear_wool(g2, spec_shift(c, 0, 0, -1));
    let g4 = spec_clear_wool(g3, spec_shift(c, 1, 0, 0));
    let g5 = spec_clear_wool(g4, spec_shift(c, 0, 1, 0));
    let g6 = spec_clear_wool(g5, spec_shift(c, 0, 0, 1));
    spec_clear_wool(g6, c)
}

/// What one fireball does to the world: nothing without a hit; on a
/// hit, the detonation clears destructible cells on the hit cell and
/// its six faces, and the fireball despawns, whatever the hit cell
/// itself was.
pub open spec fn spec_fireball_impact_one(g: Map<LatticePos, Block>, p: Projectile) -> (
    Map<LatticePos, Block>,
    Projectile,
) {
    if p.kind != ProjectileKind::Fireball {
        (g, p)
    } else {
        match spec_scan_hit(g, p.pos, p.vel, 0, None) {
            None => (g, p),
            Some(c) => (spec_blast(g, c), Projectile { despawned: true, ..p }),
        }
    }
}

/// The fireball collision pass over the first `k` projectiles.
pub open spec fn spec_fireball_pass(
    g: Map<LatticePos, Block>,
    s: Seq<Projectile>,
    k: int,
) -> (Map<LatticePos, Block>, Seq<Projectile>)
    decreases k,
{
    if k <= 0 {
        (g, s)
    } else {
        let prev = spec_fireball_pass(g, s, k - 1);
        let st = spec_fireball_impact_one(prev.0, prev.1[k - 1]);
        (st.0, prev.1.update(k - 1, st.1))
    }
}

proof fn lemma_fireball_pass_untouched(
    g: Map<LatticePos, Block>,
    s: Seq<Projectile>,
    k: int,
)
    requires
        0 <= k <= s.len(),
    ensures
        spec_fireball_pass(g, s, k).1.len() == s.len(),
        forall|j: int| k <= j < s.len() ==> spec_fireball_pass(g, s, k).1[j] == s[j],
    decreases k,
{
    if k > 0 {
        lemma_fireball_pass_untouched(g, s, k - 1);
    }
}

/// The fireball pass only flips despawn marks and clears covered
/// cells: every projectile keeps its motion state, and the covered
/// domain does not change.
pub proof fn lemma_fireball_pass_frame(
    g: Map<LatticePos, Block>,
    s: Seq<Projectile>,
    k: int,
)
    requires
        0 <= k <= s.len(),
    ensures
        spec_fireball_pass(g, s, k).1.len() == s.len(),
        forall|j: int|
            0 <= j < s.len() ==> {
                let q = #[trigger] spec_fireball_pass(g, s, k).1[j];
                q.pos == s[j].pos && q.vel == s[j].vel && q.kind == s[j].kind && q.owner
                    == s[j].owner && q.gravity_disabled == s[j].gravity_disabled
            },
        spec_fireball_pass(g, s, k).0.dom() == g.dom(),
    decreases k,
{
    if k > 0 {
        lemma_fireball_pass_frame(g, s, k - 1);
        let prev = spec_fireball_pass(g, s, k - 1);
        let st = spec_fireball_impact_one(prev.0, prev.1[k - 1]);
        assert(st.0.dom() =~= prev.0.dom());
    } else {
        assert(spec_fireball_pass(g, s, 0).0.dom() =~= g.dom());
    }
}

/// All grid keys sit strictly inside the `i32` range, so every
/// face-adjacent cell is representable.
pub open spec fn grid_interior(g: Map<LatticePos, Block>) -> bool {
    forall|p: LatticePos|
        #[trigger] g.dom().contains(p) ==> i32::MIN < p.x < i32::MAX && i32::MIN < p.y
            < i32::MAX && i32::MIN < p.z < i32::MAX
}

/// Resolves collisions for every fireball, in order, detonating at the
/// first covered non-air sample cell.
pub fn fireball_intersection(projectiles: &mut Vec<Projectile>, grid: &mut VoxelGrid)
    requires
        old(grid).wf(),
        grid_interior(old(grid)@),
        forall|j: int|
            0 <= j < old(projectiles)@.len() && (#[trigger] old(projectiles)@[j]).kind
                == ProjectileKind::Fireball ==> vel_bounded(old(projectiles)@[j].vel)
                && samples_in_range(old(projectiles)@[j].pos, old(projectiles)@[j].vel),
    ensures
        final(grid).wf(),
        final(grid)@ == spec_fireball_pass(
            old(grid)@,
            old(projectiles)@,
            old(projectiles)@.len() as int,
        ).0,
        final(projectiles)@ == spec_fireball_pass(
            old(grid)@,
            old(projectiles)@,
            old(projectiles)@.len() as int,
        ).1,
{
    let n = projectiles.len();
    let mut i: usize = 0;
    while i < n
        invariant
            grid.wf(),
            grid@.dom() == old(grid)@.dom(),
            grid_interior(old(grid)@),
            n == old(projectiles)@.len(),
            projectiles@.len() == n,
            0 <= i <= n,
            forall|j: int|
                0 <= j < n && (#[trigger] old(projectiles)@[j]).kind
                    == ProjectileKind::Fireball ==> vel_bounded(old(projectiles)@[j].vel)
                    && samples_in_range(old(projectiles)@[j].pos, old(projectiles)@[j].vel),
            grid@ == spec_fireball_pass(old(grid)@, old(projectiles)@, i as int).0,
            projectiles@ == spec_fireball_pass(old(grid)@, old(projectiles)@, i as int).1,
        decreases n - i,
    {
        proof {
            lemma_fireball_pass_untouched(old(grid)@, old(projectiles)@, i as int);
        }
        let p = projectiles[i];
        proof {
            assert(p == old(projectiles)@[i as int]);
        }
        let ghost gpre = grid@;
        let ghost spre = projectiles@;
        if matches!(p.kind, ProjectileKind::Fireball) {
            match find_hit_cell(grid, p.pos, p.vel) {
                Some(c) => {
                    proof {
                        assert(old(grid)@.dom().contains(c));
                    }
                    clear_wool(grid, LatticePos { x: c.x - 1, y: c.y, z: c.z });
                    clear_wool(grid, LatticePos { x: c.x, y: c.y - 1, z: c.z });
                    clear_wool(grid, LatticePos { x: c.x, y: c.y, z: c.z - 1 });
                    clear_wool(grid, LatticePos { x: c.x + 1, y: c.y, z: c.z });
                    clear_wool(grid, LatticePos { x: c.x, y: c.y + 1, z: c.z });
                    clear_wool(grid, LatticePos { x: c.x, y: c.y, z: c.z + 1 });
                    clear_wool(grid, c);
                    projectiles.set(i, Projectile { despawned: true, ..p });
                },
                None => {},
            }
        }
        proof {
            let st = spec_fireball_impact_one(gpre, p);
            assert(grid@ == st.0);
            assert(projectiles@ =~= spre.update(i as int, st.1));
            assert(grid@.dom() =~= gpre.dom());
        }
        i = i + 1;
    }
}

/// An arrow fired from rest: the gravity impulse alone would set the
/// vertical velocity to a full unit downward; the drag then shaves one
/// percent off, and the position moves by exactly a twentieth of the
/// resulting velocity.
pub proof fn lemma_arrow_first_tick_from_rest(pos: Vec3Milli)
    requires
        pos_bounded(pos),
    ensures
        ({
            let stepped = spec_arrow_step(pos, Vec3Milli { x: 0, y: 0, z: 0 });
            &&& 0 - 1000 == -1000int
            &&& stepped.1 == (Vec3Milli { x: 0, y: -990i64, z: 0 })
            &&& stepped.0 == (Vec3Milli { x: pos.x, y: (pos.y - 49) as i64, z: pos.z })
            &&& stepped.0.y - pos.y == trunc_div(stepped.1.y as int, 20)
        }),
{
    assert(trunc_div(0int * 99, 100) == 0) by {
        vstd::arithmetic::div_mod::lemma_div_of0(100);
    }
    assert(trunc_div((0int - 1000) * 99, 100) == -990) by {
        assert((0int - 1000) * 99 == -99000);
        assert(99000int / 100 == 990);
    }
    assert(trunc_div(-990int, 20) == -49) by {
        assert(990int / 20 == 49);
    }
    assert(trunc_div(0int, 20) == 0) by {
        vstd::arithmetic::div_mod::lemma_div_of0(20);
    }
}

/// Whether `q` is the hit cell or one of its six face-adjacent cells.
pub open spec fn spec_face_neighbor7(c: LatticePos, q: LatticePos) -> bool {
    ||| q == c
    ||| q == spec_shift(c, -1, 0, 0)
    ||| q == spec_shift(c, 0, -1, 0)
    ||| q == spec_shift(c, 0, 0, -1)
    ||| q == spec_shift(c, 1, 0, 0)
    ||| q == spec_shift(c, 0, 1, 0)
    ||| q == spec_shift(c, 0, 0, 1)
}

/// The detonation, cell by cell: exactly the destructible cells among
/// the hit cell and its six faces are cleared; every other cell keeps
/// its material, and the covered domain does not change.
pub proof fn lemma_blast_effect(g: Map<LatticePos, Block>, c: LatticePos)
    requires
        i32::MIN < c.x < i32::MAX,
        i32::MIN < c.y < i32::MAX,
        i32::MIN < c.z < i32::MAX,
    ensures
        spec_blast(g, c).dom() == g.dom(),
        forall|q: LatticePos|
            g.dom().contains(q) ==> spec_blast(g, c)[q] == (if spec_face_neighbor7(c, q)
                && g[q].spec_destructible() {
                Block::Air
            } else {
                g[q]
            }),
{
    assert(spec_blast(g, c).dom() =~= g.dom());
}

/// The projectiles still in flight after the tick's despawn marks are
/// honoured, in order.
pub open spec fn spec_remaining(s: Seq<Projectile>) -> Seq<Projectile>
    decreases s.len(),
{
    if s.len() == 0 {
        Seq::empty()
    } else {
        let rest = spec_remaining(s.drop_last());
        if s.last().despawned {
            rest
        } else {
            rest.push(s.last())
        }
    }
}

/// Removes every projectile marked despawned, keeping the order of the
/// rest. The host destroys the marked entities at the end of the tick.
pub fn purge_despawned(projectiles: &mut Vec<Projectile>)
    ensures
        final(projectiles)@ == spec_remaining(old(projectiles)@),
{
    let n = projectiles.len();
    let mut kept: Vec<Projectile> = Vec::new();
    let mut i: usize = 0;
    while i < n
        invariant
            projectiles == old(projectiles),
            n == projectiles@.len(),
            0 <= i <= n,
            kept@ == spec_remaining(projectiles@.take(i as int)),
        decreases n - i,
    {
        proof {
            assert(projectiles@.take(i + 1).drop_last() =~= projectiles@.take(i as int));
            assert(projectiles@.take(i + 1).last() == projectiles@[i as int]);
        }
        let p = projectiles[i];
        if !p.despawned {
            kept.push(p);
        }
        i = i + 1;
    }
    proof {
        assert(projectiles@.take(n as int) =~= projectiles@);
    }
    *projectiles = kept;
}

} // verus!
