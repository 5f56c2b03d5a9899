//! The arena's voxel grid: a finite mapping from lattice positions to
//! block materials.
//!
//! The grid covers exactly the cells the host has loaded; a lookup
//! outside that domain returns nothing and every consumer treats that as
//! "skip". Writes touch only cells already in the domain, mirroring a
//! host world where a block can only be replaced where a chunk exists.

use crate::block::Block;
use crate::geom::LatticePos;
use vstd::pervasive::VecAdditionalExecFns;
use vstd::prelude::*;

verus! {

/// Finite voxel store, keyed by lattice position.
pub struct VoxelGrid {
    cells: Vec<(LatticePos, Block)>,
}

impl VoxelGrid {
    /// The underlying entry list, in insertion order.
    pub closed spec fn entries(&self) -> Seq<(LatticePos, Block)> {
        self.cells@
    }

    /// Positions are unique across entries.
    pub open spec fn wf(&self) -> bool {
        forall|i: int, j: int|
            0 <= i < j < self.entries().len() ==> (#[trigger] self.entries()[i]).0 != (
            #[trigger] self.entries()[j]).0
    }

    pub open spec fn spec_has(&self, p: LatticePos) -> bool {
        exists|i: int| 0 <= i < self.entries().len() && (#[trigger] self.entries()[i]).0 == p
    }

    pub open spec fn spec_at(&self, p: LatticePos) -> Block {
        self.entries()[choose|i: int|
            0 <= i < self.entries().len() && (#[trigger] self.entries()[i]).0 == p].1
    }

    /// The grid as a finite map from position to material.
    pub open spec fn view(&self) -> Map<LatticePos, Block> {
        Map::new(|p: LatticePos| self.spec_has(p), |p: LatticePos| self.spec_at(p))
    }

    /// Builds a grid from a list of cells with pairwise distinct
    /// positions.
    pub fn from_cells(cells: Vec<(LatticePos, Block)>) -> (g: VoxelGrid)
        requires
            forall|i: int, j: int|
                0 <= i < j < cells@.len() ==> (#[trigger] cells@[i]).0 != (
                #[trigger] cells@[j]).0,
        ensures
            g.wf(),
            g.entries() == cells@,
    {
        VoxelGrid { cells }
    }

    /// Ties the entry list to the map view: each entry is in the map, and
    /// everything in the map comes from an entry.
    pub proof fn lemma_entries_view(&self)
        requires
            self.wf(),
        ensures
            forall|i: int|
                0 <= i < self.entries().len() ==> self@.dom().contains(
                    (#[trigger] self.entries()[i]).0) && self@[self.entries()[i].0]
                    == self.entries()[i].1,
            forall|p: LatticePos|
                self@.dom().contains(p) ==> exists|i: int|
                    0 <= i < self.entries().len() && (#[trigger] self.entries()[i]).0 == p,
    {
        assert forall|i: int| 0 <= i < self.entries().len() implies self@.dom().contains(
            (#[trigger] self.entries()[i]).0) && self@[self.entries()[i].0]
            == self.entries()[i].1 by {
            let p = self.entries()[i].0;
            assert(self.spec_has(p));
            let j = choose|j: int|
                0 <= j < self.entries().len() && (#[trigger] self.entries()[j]).0 == p;
            assert(j == i);
        }
    }

    pub fn cell_count(&self) -> (n: usize)
        ensures
            n == self.entries().len(),
    {
        self.cells.len()
    }

    pub fn entry_at(&self, i: usize) -> (r: (LatticePos, Block))
        requires
            i < self.entries().len(),
        ensures
            r == self.entries()[i as int],
    {
        self.cells[i]
    }

    /// The material at `p`, or nothing when the grid does not cover `p`.
    pub fn get(&self, p: LatticePos) -> (r: Option<Block>)
        requires
            self.wf(),
        ensures
            r == if self@.dom().contains(p) {
                Some(self@[p])
            } else {
                Option::<Block>::None
            },
    {
        let n = self.cells.len();
        let mut i: usize = 0;
        while i < n
            invariant
                self.wf(),
                n == self.entries().len(),
                0 <= i <= n,
                forall|j: int| 0 <= j < i ==> (#[trigger] self.entries()[j]).0 != p,
            decreases n - i,
        {
            let (q, b) = self.cells[i];
            if q == p {
                proof {
                    assert(self.spec_has(p));
                    let j = choose|j: int|
                        0 <= j < self.entries().len() && (#[trigger] self.entries()[j]).0 == p;
                    assert(j == i);
                }
                return Some(b);
            }
            i = i + 1;
        }
        proof {
            assert(!self.spec_has(p));
        }
        None
    }

    /// Replaces the material at `p` when the grid covers `p`; otherwise
    /// leaves the grid unchanged.
    pub fn set(&mut self, p: LatticePos, b: Block)
        requires
            old(self).wf(),
        ensures
            final(self).wf(),
            final(self)@ == if old(self)@.dom().contains(p) {
                old(self)@.insert(p, b)
            } else {
                old(self)@
            },
    {
        let n = self.cells.len();
        let mut i: usize = 0;
        while i < n
            invariant
                self.wf(),
                self == old(self),
                n == self.entries().len(),
                0 <= i <= n,
                forall|j: int| 0 <= j < i ==> (#[trigger] self.entries()[j]).0 != p,
            decreases n - i,
        {
            let (q, _) = self.cells[i];
            if q == p {
                self.cells.set(i, (q, b));
                proof {
                    let pre = old(self);
                    assert(pre.spec_has(p));
                    assert forall|r: LatticePos|
                        (self.spec_has(r) == pre.spec_has(r)) && (self.spec_has(r)
                            ==> self.spec_at(r) == (if r == p { b } else { pre.spec_at(r) })) by {
                        if self.spec_has(r) {
                            let j = choose|j: int|
                                0 <= j < self.entries().len() && (
                                #[trigger] self.entries()[j]).0 == r;
                            assert(pre.entries()[j].0 == r);
                            assert(pre.spec_has(r));
                            let j2 = choose|j2: int|
                                0 <= j2 < pre.entries().len() && (
                                #[trigger] pre.entries()[j2]).0 == r;
                            assert(j2 == j);
                            if r == p {
                                assert(j == i);
                            }
                        }
                        if pre.spec_has(r) {
                            let j = choose|j: int|
                                0 <= j < pre.entries().len() && (
                                #[trigger] pre.entries()[j]).0 == r;
                            assert(self.entries()[j].0 == r);
                            assert(self.spec_has(r));
                        }
                    }
                    assert(self@ =~= pre@.insert(p, b));
                }
                return ;
            }
            i = i + 1;
        }
        proof {
            assert(!self.spec_has(p));
        }
    }
}

} // verus!
