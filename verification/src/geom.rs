//! Lattice coordinates and fixed-point vectors.
//!
//! A `LatticePos` names one unit cell of the voxel world. A `Vec3Milli` is
//! a point or velocity in milli-units (thousandths of a unit): the cell
//! containing a point is found by flooring each coordinate to the nearest
//! multiple of 1000 below it.

use vstd::arithmetic::div_mod::{
    lemma_fundamental_div_mod, lemma_fundamental_div_mod_converse_div,
};
use vstd::prelude::*;

verus! {

/// Milli-units per world unit; one lattice cell spans this many
/// milli-units on each axis.
pub const MILLIS_PER_UNIT: i64 = 1000;

/// Integer (x, y, z) coordinate identifying one unit cell of the voxel
/// world.
#[derive(Clone, Copy, Debug, PartialEq, Eq, Hash, Structural)]
pub struct LatticePos {
    pub x: i32,
    pub y: i32,
    pub z: i32,
}

impl LatticePos {
    pub fn new(x: i32, y: i32, z: i32) -> (r: LatticePos)
        ensures
            r == (LatticePos { x, y, z }),
    {
        LatticePos { x, y, z }
    }
}

/// A point or velocity in milli-units.
#[derive(Clone, Copy, Debug, PartialEq, Eq, Structural)]
pub struct Vec3Milli {
    pub x: i64,
    pub y: i64,
    pub z: i64,
}

impl Vec3Milli {
    pub fn new(x: i64, y: i64, z: i64) -> (r: Vec3Milli)
        ensures
            r == (Vec3Milli { x, y, z }),
    {
        Vec3Milli { x, y, z }
    }
}

/// Floor division of `a` by a positive divisor `d`: the unique `q` with
/// `q * d <= a < (q + 1) * d`. Matches spec-level `/` on `int`, which
/// rounds toward negative infinity for positive divisors.
pub fn floor_div(a: i64, d: i64) -> (q: i64)
    requires
        0 < d,
    ensures
        q == a as int / d as int,
{
    if a >= 0 {
        let q = (a as u64) / (d as u64);
        proof {
            assert(q <= a as u64) by {
                lemma_fundamental_div_mod(a as int, d as int);
            }
        }
        q as i64
    } else {
        // For a < 0, floor(a / d) == -1 - ((-a - 1) / d): writing
        // m = -a - 1 as m == q * d + r with 0 <= r < d gives
        // a == (-q - 1) * d + (d - 1 - r) with the remainder in range.
        let m = (-(a + 1)) as u64;
        let t = m / (d as u64);
        proof {
            let mi = m as int;
            let di = d as int;
            lemma_fundamental_div_mod(mi, di);
            assert(t <= m) by {
                lemma_fundamental_div_mod(mi, di);
            }
            let q = mi / di;
            let r = mi % di;
            assert(a as int == (-q - 1) * di + (di - 1 - r)) by (nonlinear_arith)
                requires
                    mi == q * di + r,
                    a as int == -mi - 1,
            ;
            lemma_fundamental_div_mod_converse_div(a as int, di, -q - 1, di - 1 - r);
        }
        -1 - (t as i64)
    }
}

/// The lattice cell containing a point, by flooring each coordinate.
pub open spec fn spec_cell_of(p: Vec3Milli) -> LatticePos {
    LatticePos {
        x: (p.x as int / MILLIS_PER_UNIT as int) as i32,
        y: (p.y as int / MILLIS_PER_UNIT as int) as i32,
        z: (p.z as int / MILLIS_PER_UNIT as int) as i32,
    }
}

/// Bound on coordinates under which a milli-unit coordinate floors to a
/// lattice coordinate that fits in `i32`.
pub open spec fn in_lattice_range(p: Vec3Milli) -> bool {
    &&& i32::MIN as int * MILLIS_PER_UNIT as int <= p.x as int
        <= i32::MAX as int * MILLIS_PER_UNIT as int
    &&& i32::MIN as int * MILLIS_PER_UNIT as int <= p.y as int
        <= i32::MAX as int * MILLIS_PER_UNIT as int
    &&& i32::MIN as int * MILLIS_PER_UNIT as int <= p.z as int
        <= i32::MAX as int * MILLIS_PER_UNIT as int
}

/// The lattice cell containing the point `p`.
pub fn cell_of(p: Vec3Milli) -> (r: LatticePos)
    requires
        in_lattice_range(p),
    ensures
        r == spec_cell_of(p),
{
    let x = floor_div(p.x, MILLIS_PER_UNIT);
    let y = floor_div(p.y, MILLIS_PER_UNIT);
    let z = floor_div(p.z, MILLIS_PER_UNIT);
    LatticePos { x: x as i32, y: y as i32, z: z as i32 }
}

} // verus!
