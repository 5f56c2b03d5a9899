//! Axis-aligned regions over lattice coordinates.
//!
//! An `Area` is an inclusive box `[min, max]` used for trigger zones and
//! bounds checks. The constructor normalises its two corner inputs, so a
//! freshly built area always satisfies `min <= max` componentwise.

use crate::geom::LatticePos;
use vstd::prelude::*;

verus! {

/// Componentwise minimum of two lattice positions.
pub open spec fn spec_pos_min(a: LatticePos, b: LatticePos) -> LatticePos {
    LatticePos {
        x: if a.x <= b.x { a.x } else { b.x },
        y: if a.y <= b.y { a.y } else { b.y },
        z: if a.z <= b.z { a.z } else { b.z },
    }
}

/// Componentwise maximum of two lattice positions.
pub open spec fn spec_pos_max(a: LatticePos, b: LatticePos) -> LatticePos {
    LatticePos {
        x: if a.x >= b.x { a.x } else { b.x },
        y: if a.y >= b.y { a.y } else { b.y },
        z: if a.z >= b.z { a.z } else { b.z },
    }
}

pub fn block_pos_min(a: LatticePos, b: LatticePos) -> (r: LatticePos)
    ensures
        r == spec_pos_min(a, b),
{
    LatticePos {
        x: if a.x <= b.x { a.x } else { b.x },
        y: if a.y <= b.y { a.y } else { b.y },
        z: if a.z <= b.z { a.z } else { b.z },
    }
}

pub fn block_pos_max(a: LatticePos, b: LatticePos) -> (r: LatticePos)
    ensures
        r == spec_pos_max(a, b),
{
    LatticePos {
        x: if a.x >= b.x { a.x } else { b.x },
        y: if a.y >= b.y { a.y } else { b.y },
        z: if a.z >= b.z { a.z } else { b.z },
    }
}

/// Inclusive axis-aligned box over lattice coordinates.
#[derive(Clone, Copy, Debug, PartialEq, Eq, Hash, Structural)]
pub struct Area {
    pub min: LatticePos,
    pub max: LatticePos,
}

impl Area {
    /// The corners are ordered: `min <= max` componentwise.
    pub open spec fn wf(self) -> bool {
        self.min.x <= self.max.x && self.min.y <= self.max.y && self.min.z <= self.max.z
    }

    pub open spec fn spec_new(a: LatticePos, b: LatticePos) -> Area {
        Area { min: spec_pos_min(a, b), max: spec_pos_max(a, b) }
    }

    /// `pos` lies within `[min, max]` on all three axes, inclusive.
    pub open spec fn spec_contains(self, pos: LatticePos) -> bool {
        &&& self.min.x <= pos.x <= self.max.x
        &&& self.min.y <= pos.y <= self.max.y
        &&& self.min.z <= pos.z <= self.max.z
    }

    /// Builds the box spanned by two corners, in either order.
    pub fn new(a: LatticePos, b: LatticePos) -> (r: Area)
        ensures
            r == Area::spec_new(a, b),
            r.wf(),
            r.spec_contains(a),
            r.spec_contains(b),
    {
        Area { min: block_pos_min(a, b), max: block_pos_max(a, b) }
    }

    pub fn min(&self) -> (r: LatticePos)
        ensures
            r == self.min,
    {
        self.min
    }

    pub fn max(&self) -> (r: LatticePos)
        ensures
            r == self.max,
    {
        self.max
    }

    pub open spec fn spec_merge(self, other: Area) -> Area {
        Area {
            min: spec_pos_min(self.min, other.min),
            max: spec_pos_max(self.max, other.max),
        }
    }

    /// The smallest box containing both `self` and `other`, provided both
    /// are well formed.
    pub fn merge(&self, other: &Area) -> (r: Area)
        ensures
            r == self.spec_merge(*other),
            self.wf() && other.wf() ==> r.wf(),
            forall|p: LatticePos|
                self.spec_contains(p) || other.spec_contains(p) ==> r.spec_contains(p),
    {
        Area {
            min: block_pos_min(self.min, other.min),
            max: block_pos_max(self.max, other.max),
        }
    }

    pub fn contains(&self, pos: LatticePos) -> (r: bool)
        ensures
            r == self.spec_contains(pos),
    {
        pos.x >= self.min.x && pos.x <= self.max.x && pos.y >= self.min.y
            && pos.y <= self.max.y && pos.z >= self.min.z && pos.z <= self.max.z
    }

    /// The additions in `spec_expand` stay within `i32`.
    pub open spec fn expand_fits(self, dirs: LatticePos) -> bool {
        &&& (dirs.x < 0 ==> i32::MIN <= self.min.x + dirs.x)
        &&& (dirs.x >= 0 ==> self.max.x + dirs.x <= i32::MAX)
        &&& (dirs.y < 0 ==> i32::MIN <= self.min.y + dirs.y)
        &&& (dirs.y >= 0 ==> self.max.y + dirs.y <= i32::MAX)
        &&& (dirs.z < 0 ==> i32::MIN <= self.min.z + dirs.z)
        &&& (dirs.z >= 0 ==> self.max.z + dirs.z <= i32::MAX)
    }

    pub open spec fn spec_expand(self, dirs: LatticePos) -> Area {
        Area {
            min: LatticePos {
                x: if dirs.x < 0 { (self.min.x + dirs.x) as i32 } else { self.min.x },
                y: if dirs.y < 0 { (self.min.y + dirs.y) as i32 } else { self.min.y },
                z: if dirs.z < 0 { (self.min.z + dirs.z) as i32 } else { self.min.z },
            },
            max: LatticePos {
                x: if dirs.x >= 0 { (self.max.x + dirs.x) as i32 } else { self.max.x },
                y: if dirs.y >= 0 { (self.max.y + dirs.y) as i32 } else { self.max.y },
                z: if dirs.z >= 0 { (self.max.z + dirs.z) as i32 } else { self.max.z },
            },
        }
    }

    /// Grows the box by `dirs`, one face per axis: a negative component
    /// moves the `min` face outward, a non-negative one moves the `max`
    /// face.
    pub fn expand(&self, dirs: LatticePos) -> (r: Area)
        requires
            self.expand_fits(dirs),
        ensures
            r == self.spec_expand(dirs),
    {
        let mut r = *self;
        if dirs.x < 0 {
            r.min.x = r.min.x + dirs.x;
        } else {
            r.max.x = r.max.x + dirs.x;
        }
        if dirs.y < 0 {
            r.min.y = r.min.y + dirs.y;
        } else {
            r.max.y = r.max.y + dirs.y;
        }
        if dirs.z < 0 {
            r.min.z = r.min.z + dirs.z;
        } else {
            r.max.z = r.max.z + dirs.z;
        }
        r
    }

    /// The subtractions in `spec_shrink` stay within `i32`.
    pub open spec fn shrink_fits(self, dirs: LatticePos) -> bool {
        &&& (dirs.x < 0 ==> self.min.x - dirs.x <= i32::MAX)
        &&& (dirs.x >= 0 ==> i32::MIN <= self.max.x - dirs.x)
        &&& (dirs.y < 0 ==> self.min.y - dirs.y <= i32::MAX)
        &&& (dirs.y >= 0 ==> i32::MIN <= self.max.y - dirs.y)
        &&& (dirs.z < 0 ==> self.min.z - dirs.z <= i32::MAX)
        &&& (dirs.z >= 0 ==> i32::MIN <= self.max.z - dirs.z)
    }

    pub open spec fn spec_shrink(self, dirs: LatticePos) -> Area {
        Area {
            min: LatticePos {
                x: if dirs.x < 0 { (self.min.x - dirs.x) as i32 } else { self.min.x },
                y: if dirs.y < 0 { (self.min.y - dirs.y) as i32 } else { self.min.y },
                z: if dirs.z < 0 { (self.min.z - dirs.z) as i32 } else { self.min.z },
            },
            max: LatticePos {
                x: if dirs.x >= 0 { (self.max.x - dirs.x) as i32 } else { self.max.x },
                y: if dirs.y >= 0 { (self.max.y - dirs.y) as i32 } else { self.max.y },
                z: if dirs.z >= 0 { (self.max.z - dirs.z) as i32 } else { self.max.z },
            },
        }
    }

    /// Shrinks the box by `dirs`, moving the same face per axis that
    /// `expand` would move: `shrink` undoes `expand` with the same
    /// argument.
    pub fn shrink(&self, dirs: LatticePos) -> (r: Area)
        requires
            self.shrink_fits(dirs),
        ensures
            r == self.spec_shrink(dirs),
    {
        let mut r = *self;
        if dirs.x < 0 {
            r.min.x = r.min.x - dirs.x;
        } else {
            r.max.x = r.max.x - dirs.x;
        }
        if dirs.y < 0 {
            r.min.y = r.min.y - dirs.y;
        } else {
            r.max.y = r.max.y - dirs.y;
        }
        if dirs.z < 0 {
            r.min.z = r.min.z - dirs.z;
        } else {
            r.max.z = r.max.z - dirs.z;
        }
        r
    }
}

/// A chunk coordinate: lattice coordinates floored to multiples of 16 on
/// the x and z axes.
#[derive(Clone, Copy, Debug, PartialEq, Eq, Hash, Structural)]
pub struct ChunkPos {
    pub x: i32,
    pub z: i32,
}

impl Area {
    /// Every lattice point of the volume, each exactly once. The order is
    /// row-major but callers should rely only on the set of points.
    pub fn iter_block_pos(&self) -> (r: Vec<LatticePos>)
        ensures
            forall|k: int| 0 <= k < r@.len() ==> self.spec_contains(#[trigger] r@[k]),
            forall|p: LatticePos| self.spec_contains(p) ==> r@.contains(p),
            forall|k1: int, k2: int| 0 <= k1 < k2 < r@.len() ==> r@[k1] != r@[k2],
    {
        let mut r: Vec<LatticePos> = Vec::new();
        let mut x: i64 = self.min.x as i64;
        while x <= self.max.x as i64
            invariant
                self.min.x as int <= x,
                forall|k: int|
                    0 <= k < r@.len() ==> self.spec_contains(#[trigger] r@[k]) && r@[k].x < x,
                forall|p: LatticePos|
                    self.spec_contains(p) && p.x < x ==> r@.contains(p),
                forall|k1: int, k2: int| 0 <= k1 < k2 < r@.len() ==> r@[k1] != r@[k2],
            decreases self.max.x as int + 1 - x,
        {
            let mut y: i64 = self.min.y as i64;
            while y <= self.max.y as i64
                invariant
                    self.min.x as int <= x <= self.max.x as int,
                    self.min.y as int <= y,
                    forall|k: int|
                        0 <= k < r@.len() ==> self.spec_contains(#[trigger] r@[k]) && (
                        r@[k].x < x || (r@[k].x == x && r@[k].y < y)),
                    forall|p: LatticePos|
                        self.spec_contains(p) && (p.x < x || (p.x == x && p.y < y))
                            ==> r@.contains(p),
                    forall|k1: int, k2: int| 0 <= k1 < k2 < r@.len() ==> r@[k1] != r@[k2],
                decreases self.max.y as int + 1 - y,
            {
                let mut z: i64 = self.min.z as i64;
                while z <= self.max.z as i64
                    invariant
                        self.min.x as int <= x <= self.max.x as int,
                        self.min.y as int <= y <= self.max.y as int,
                        self.min.z as int <= z,
                        forall|k: int|
                            0 <= k < r@.len() ==> self.spec_contains(#[trigger] r@[k]) && (
                            r@[k].x < x || (r@[k].x == x && r@[k].y < y) || (r@[k].x == x
                                && r@[k].y == y && r@[k].z < z)),
                        forall|p: LatticePos|
                            self.spec_contains(p) && (p.x < x || (p.x == x && p.y < y) || (
                            p.x == x && p.y == y && p.z < z)) ==> r@.contains(p),
                        forall|k1: int, k2: int| 0 <= k1 < k2 < r@.len() ==> r@[k1] != r@[k2],
                    decreases self.max.z as int + 1 - z,
                {
                    let ghost r0 = r@;
                    let p = LatticePos { x: x as i32, y: y as i32, z: z as i32 };
                    r.push(p);
                    proof {
                        assert forall|q: LatticePos|
                            self.spec_contains(q) && (q.x < x || (q.x == x && q.y < y) || (
                            q.x == x && q.y == y && q.z < z + 1)) implies r@.contains(q) by {
                            if q == p {
                                assert(r@[r0.len() as int] == q);
                            } else {
                                assert(r0.contains(q));
                                let i = choose|i: int| 0 <= i < r0.len() && r0[i] == q;
                                assert(r@[i] == q);
                            }
                        }
                    }
                    z = z + 1;
                }
                y = y + 1;
            }
            x = x + 1;
        }
        r
    }

    /// Every (x, z) column of the volume, each exactly once.
    pub fn iter_block_pos_plane(&self) -> (r: Vec<(i32, i32)>)
        ensures
            forall|k: int|
                0 <= k < r@.len() ==> self.min.x <= (#[trigger] r@[k]).0 <= self.max.x
                    && self.min.z <= r@[k].1 <= self.max.z,
            forall|cx: i32, cz: i32|
                self.min.x <= cx <= self.max.x && self.min.z <= cz <= self.max.z
                    ==> r@.contains((cx, cz)),
            forall|k1: int, k2: int| 0 <= k1 < k2 < r@.len() ==> r@[k1] != r@[k2],
    {
        let mut r: Vec<(i32, i32)> = Vec::new();
        let mut x: i64 = self.min.x as i64;
        while x <= self.max.x as i64
            invariant
                self.min.x as int <= x,
                forall|k: int|
                    0 <= k < r@.len() ==> self.min.x <= (#[trigger] r@[k]).0 <= self.max.x
                        && self.min.z <= r@[k].1 <= self.max.z && r@[k].0 < x,
                forall|cx: i32, cz: i32|
                    self.min.x <= cx <= self.max.x && self.min.z <= cz <= self.max.z && cx < x
                        ==> r@.contains((cx, cz)),
                forall|k1: int, k2: int| 0 <= k1 < k2 < r@.len() ==> r@[k1] != r@[k2],
            decreases self.max.x as int + 1 - x,
        {
            let mut z: i64 = self.min.z as i64;
            while z <= self.max.z as i64
                invariant
                    self.min.x as int <= x <= self.max.x as int,
                    self.min.z as int <= z,
                    forall|k: int|
                        0 <= k < r@.len() ==> self.min.x <= (#[trigger] r@[k]).0 <= self.max.x
                            && self.min.z <= r@[k].1 <= self.max.z && (r@[k].0 < x || (
                        r@[k].0 == x && r@[k].1 < z)),
                    forall|cx: i32, cz: i32|
                        self.min.x <= cx <= self.max.x && self.min.z <= cz <= self.max.z && (
                        cx < x || (cx == x && cz < z)) ==> r@.contains((cx, cz)),
                    forall|k1: int, k2: int| 0 <= k1 < k2 < r@.len() ==> r@[k1] != r@[k2],
                decreases self.max.z as int + 1 - z,
            {
                let ghost r0 = r@;
                let p = (x as i32, z as i32);
                r.push(p);
                proof {
                    assert forall|cx: i32, cz: i32|
                        self.min.x <= cx <= self.max.x && self.min.z <= cz <= self.max.z && (
                        cx < x || (cx == x && cz < z + 1)) implies r@.contains((cx, cz)) by {
                        if (cx, cz) == p {
                            assert(r@[r0.len() as int] == (cx, cz));
                        } else {
                            assert(r0.contains((cx, cz)));
                            let i = choose|i: int| 0 <= i < r0.len() && r0[i] == (cx, cz);
                            assert(r@[i] == (cx, cz));
                        }
                    }
                }
                z = z + 1;
            }
            x = x + 1;
        }
        r
    }

    /// Every chunk (16 by 16 column footprint) touched by the volume, each
    /// exactly once.
    pub fn iter_chunk_pos(&self) -> (r: Vec<ChunkPos>)
        ensures
            forall|k: int|
                0 <= k < r@.len() ==> self.min.x as int / 16 <= (#[trigger] r@[k]).x as int
                    <= self.max.x as int / 16 && self.min.z as int / 16 <= r@[k].z as int
                    <= self.max.z as int / 16,
            forall|c: ChunkPos|
                self.min.x as int / 16 <= c.x as int <= self.max.x as int / 16
                    && self.min.z as int / 16 <= c.z as int <= self.max.z as int / 16
                    ==> r@.contains(c),
            forall|k1: int, k2: int| 0 <= k1 < k2 < r@.len() ==> r@[k1] != r@[k2],
    {
        let cmin_x = crate::geom::floor_div(self.min.x as i64, 16);
        let cmax_x = crate::geom::floor_div(self.max.x as i64, 16);
        let cmin_z = crate::geom::floor_div(self.min.z as i64, 16);
        let cmax_z = crate::geom::floor_div(self.max.z as i64, 16);
        let mut r: Vec<ChunkPos> = Vec::new();
        let mut x: i64 = cmin_x;
        while x <= cmax_x
            invariant
                cmin_x == self.min.x as int / 16,
                cmax_x == self.max.x as int / 16,
                cmin_z == self.min.z as int / 16,
                cmax_z == self.max.z as int / 16,
                cmin_x <= x,
                forall|k: int|
                    0 <= k < r@.len() ==> cmin_x <= (#[trigger] r@[k]).x as int <= cmax_x
                        && cmin_z <= r@[k].z as int <= cmax_z && r@[k].x < x,
                forall|c: ChunkPos|
                    cmin_x <= c.x as int <= cmax_x && cmin_z <= c.z as int <= cmax_z
                        && c.x < x ==> r@.contains(c),
                forall|k1: int, k2: int| 0 <= k1 < k2 < r@.len() ==> r@[k1] != r@[k2],
            decreases cmax_x + 1 - x,
        {
            let mut z: i64 = cmin_z;
            while z <= cmax_z
                invariant
                    cmin_x == self.min.x as int / 16,
                    cmax_x == self.max.x as int / 16,
                    cmin_z == self.min.z as int / 16,
                    cmax_z == self.max.z as int / 16,
                    cmin_x <= x <= cmax_x,
                    cmin_z <= z,
                    forall|k: int|
                        0 <= k < r@.len() ==> cmin_x <= (#[trigger] r@[k]).x as int <= cmax_x
                            && cmin_z <= r@[k].z as int <= cmax_z && (r@[k].x < x || (
                        r@[k].x == x && r@[k].z < z)),
                    forall|c: ChunkPos|
                        cmin_x <= c.x as int <= cmax_x && cmin_z <= c.z as int <= cmax_z && (
                        c.x < x || (c.x == x && c.z < z)) ==> r@.contains(c),
                    forall|k1: int, k2: int| 0 <= k1 < k2 < r@.len() ==> r@[k1] != r@[k2],
                decreases cmax_z + 1 - z,
            {
                let ghost r0 = r@;
                let p = ChunkPos { x: x as i32, z: z as i32 };
                r.push(p);
                proof {
                    assert forall|c: ChunkPos|
                        cmin_x <= c.x as int <= cmax_x && cmin_z <= c.z as int <= cmax_z && (
                        c.x < x || (c.x == x && c.z < z + 1)) implies r@.contains(c) by {
                        if c == p {
                            assert(r@[r0.len() as int] == c);
                        } else {
                            assert(r0.contains(c));
                            let i = choose|i: int| 0 <= i < r0.len() && r0[i] == c;
                            assert(r@[i] == c);
                        }
                    }
                }
                z = z + 1;
            }
            x = x + 1;
        }
        r
    }
}

/// A box built from two corners, in either order, contains both corners
/// and is well formed.
pub proof fn lemma_new_contains_corners(a: LatticePos, b: LatticePos)
    ensures
        Area::spec_new(a, b).spec_contains(a),
        Area::spec_new(a, b).spec_contains(b),
        Area::spec_new(a, b).wf(),
{
}

/// Swapping the corner arguments builds the same box.
pub proof fn lemma_new_commutes(a: LatticePos, b: LatticePos)
    ensures
        Area::spec_new(a, b) == Area::spec_new(b, a),
{
}

/// Expanding and then shrinking by the same delta restores the region.
pub proof fn lemma_expand_shrink(r: Area, d: LatticePos)
    requires
        r.expand_fits(d),
    ensures
        r.spec_expand(d).shrink_fits(d),
        r.spec_expand(d).spec_shrink(d) == r,
{
}

/// `merge` is commutative.
pub proof fn lemma_merge_commutes(a: Area, b: Area)
    ensures
        a.spec_merge(b) == b.spec_merge(a),
{
}

/// `merge` is associative.
pub proof fn lemma_merge_associates(a: Area, b: Area, c: Area)
    ensures
        a.spec_merge(b).spec_merge(c) == a.spec_merge(b.spec_merge(c)),
{
}

/// `merge` is idempotent.
pub proof fn lemma_merge_idempotent(r: Area)
    ensures
        r.spec_merge(r) == r,
{
}

} // verus!
