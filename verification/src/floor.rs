//! Progressive floor destruction.
//!
//! Every destructible cell of the arena floor carries hit points. A
//! grounded participant drains one hit point per tick from the cell
//! below their feet; several participants on one cell drain it that much
//! faster. A cell at zero is cleared from the voxel grid and dropped
//! from the tracker, and observers are told the visible damage stage of
//! every cell whose hit points changed.

use crate::area::Area;
use crate::block::Block;
use crate::geom::{spec_cell_of, LatticePos, Vec3Milli};
use crate::grid::VoxelGrid;
use crate::player::{Player, Stage};
use vstd::pervasive::VecAdditionalExecFns;
use vstd::prelude::*;

verus! {

/// Hit points of a fresh floor cell: five seconds of ticks.
pub const MAX_HP: i32 = 100;

/// Remaining hit points of one destructible floor cell.
#[derive(Clone, Copy, Debug, PartialEq, Eq, Structural)]
pub struct BreakingState {
    pub hp: i32,
}

/// The damage stage shown for a cell with `hp` hit points left: 10 is
/// the "no crack" sentinel, 0 through 9 are crack-progress indexes.
pub open spec fn spec_destroy_stage(hp: int) -> int {
    let clamped = if hp < 0 {
        0
    } else if hp > MAX_HP as int {
        MAX_HP as int
    } else {
        hp
    };
    let stage = (MAX_HP as int - clamped) * 11 / (MAX_HP as int);
    if stage == 0 {
        10
    } else {
        stage - 1
    }
}

impl BreakingState {
    /// The client-visible damage stage for this cell.
    pub fn destroy_stage(&self) -> (r: u8)
        ensures
            r as int == spec_destroy_stage(self.hp as int),
    {
        let clamped = if self.hp < 0 {
            0
        } else if self.hp > MAX_HP {
            MAX_HP
        } else {
            self.hp
        };
        let stage = (MAX_HP - clamped) * 11 / MAX_HP;
        if stage == 0 {
            10
        } else {
            (stage - 1) as u8
        }
    }
}

impl Default for BreakingState {
    /// A fresh cell has full hit points.
    fn default() -> (r: BreakingState)
        ensures
            r.hp == MAX_HP,
    {
        BreakingState { hp: MAX_HP }
    }
}

/// A cell at full health shows the "no crack" sentinel; the sentinel
/// holds down to just over nine tenths of full health, crack index 0
/// appears from there, and one remaining hit point shows the last crack
/// index. A cell at zero wraps back onto the sentinel value, but such a
/// cell is destroyed in the same tick and never reported.
pub proof fn lemma_destroy_stage_values()
    ensures
        spec_destroy_stage(MAX_HP as int) == 10,
        spec_destroy_stage(91) == 10,
        spec_destroy_stage(90) == 0,
        spec_destroy_stage(1) == 9,
        spec_destroy_stage(0) == 10,
{
    assert((MAX_HP as int - 91) * 11 / (MAX_HP as int) == 0);
    assert((MAX_HP as int - 90) * 11 / (MAX_HP as int) == 1);
    assert((MAX_HP as int - 1) * 11 / (MAX_HP as int) == 10);
    assert((MAX_HP as int) * 11 / (MAX_HP as int) == 11);
}

/// One tracked floor cell: its lattice position, its remaining hit
/// points, and whether the hit points changed since the last report.
#[derive(Clone, Copy, Debug, PartialEq, Eq, Structural)]
pub struct FloorCell {
    pub pos: LatticePos,
    pub state: BreakingState,
    pub changed: bool,
}

/// The arena floor's tracker: the live destructible cells, keyed by
/// lattice position.
pub struct DynamicBlocks {
    cells: Vec<FloorCell>,
}

impl DynamicBlocks {
    pub closed spec fn cells(&self) -> Seq<FloorCell> {
        self.cells@
    }

    /// Cell positions are pairwise distinct.
    pub open spec fn wf(&self) -> bool {
        forall|i: int, j: int|
            0 <= i < j < self.cells().len() ==> (#[trigger] self.cells()[i]).pos != (
            #[trigger] self.cells()[j]).pos
    }

    pub open spec fn spec_has(&self, p: LatticePos) -> bool {
        exists|i: int| 0 <= i < self.cells().len() && (#[trigger] self.cells()[i]).pos == p
    }

    pub fn cell_count(&self) -> (n: usize)
        ensures
            n == self.cells().len(),
    {
        self.cells.len()
    }

    pub fn cell_at(&self, i: usize) -> (r: FloorCell)
        requires
            i < self.cells().len(),
        ensures
            r == self.cells()[i as int],
    {
        self.cells[i]
    }
}

/// Scans the registered floor volume: every covered cell whose material
/// is destructible gets a tracker entry with full hit points.
pub fn create_arena_blocks(grid: &VoxelGrid, area: &Area) -> (floor: DynamicBlocks)
    requires
        grid.wf(),
    ensures
        floor.wf(),
        forall|k: int|
            0 <= k < floor.cells().len() ==> {
                let c = #[trigger] floor.cells()[k];
                c.state.hp == MAX_HP && !c.changed && area.spec_contains(c.pos)
                    && grid@.dom().contains(c.pos) && grid@[c.pos].spec_destructible()
            },
        forall|p: LatticePos|
            area.spec_contains(p) && grid@.dom().contains(p) && grid@[p].spec_destructible()
                ==> floor.spec_has(p),
{
    let n = grid.cell_count();
    let mut cells: Vec<FloorCell> = Vec::new();
    proof {
        grid.lemma_entries_view();
    }
    let mut i: usize = 0;
    while i < n
        invariant
            grid.wf(),
            n == grid.entries().len(),
            0 <= i <= n,
            forall|a: int|
                0 <= a < grid.entries().len() ==> grid@.dom().contains(
                    (#[trigger] grid.entries()[a]).0) && grid@[grid.entries()[a].0]
                    == grid.entries()[a].1,
            forall|k1: int, k2: int|
                0 <= k1 < k2 < cells@.len() ==> (#[trigger] cells@[k1]).pos != (
                #[trigger] cells@[k2]).pos,
            forall|k: int|
                0 <= k < cells@.len() ==> {
                    let c = #[trigger] cells@[k];
                    c.state.hp == MAX_HP && !c.changed && area.spec_contains(c.pos)
                        && grid@.dom().contains(c.pos) && grid@[c.pos].spec_destructible()
                        && exists|a: int|
                        0 <= a < i && (#[trigger] grid.entries()[a]).0 == c.pos
                },
            forall|a: int|
                0 <= a < i && area.spec_contains((#[trigger] grid.entries()[a]).0)
                    && grid.entries()[a].1.spec_destructible() ==> exists|k: int|
                    0 <= k < cells@.len() && (#[trigger] cells@[k]).pos == grid.entries()[a].0,
        decreases n - i,
    {
        let (p, b) = grid.entry_at(i);
        if area.contains(p) && b.is_destructible() {
            let ghost before = cells@;
            cells.push(FloorCell { pos: p, state: BreakingState { hp: MAX_HP }, changed: false });
            proof {
                assert(cells@[before.len() as int].pos == p);
                assert forall|k1: int, k2: int|
                    0 <= k1 < k2 < cells@.len() implies (#[trigger] cells@[k1]).pos != (
                    #[trigger] cells@[k2]).pos by {
                    if k2 == before.len() {
                        // the new position comes from entry i; earlier cells
                        // come from earlier entries, and entries are distinct
                        let a = choose|a: int|
                            0 <= a < i && (#[trigger] grid.entries()[a]).0 == cells@[k1].pos;
                        assert(grid.entries()[a].0 != grid.entries()[i as int].0);
                    }
                }
                assert forall|a: int|
                    0 <= a < i + 1 && area.spec_contains((#[trigger] grid.entries()[a]).0)
                        && grid.entries()[a].1.spec_destructible() implies exists|k: int|
                    0 <= k < cells@.len() && (#[trigger] cells@[k]).pos
                        == grid.entries()[a].0 by {
                    if a == i {
                        assert(cells@[before.len() as int].pos == grid.entries()[a].0);
                    } else {
                        let k = choose|k: int|
                            0 <= k < before.len() && (#[trigger] before[k]).pos
                                == grid.entries()[a].0;
                        assert(cells@[k].pos == grid.entries()[a].0);
                    }
                }
            }
        }
        i = i + 1;
    }
    let floor = DynamicBlocks { cells };
    proof {
        assert forall|p: LatticePos|
            area.spec_contains(p) && grid@.dom().contains(p) && grid@[p].spec_destructible()
            implies floor.spec_has(p) by {
            grid.lemma_entries_view();
            let a = choose|a: int|
                0 <= a < grid.entries().len() && (#[trigger] grid.entries()[a]).0 == p;
            let k = choose|k: int|
                0 <= k < floor.cells().len() && (#[trigger] floor.cells()[k]).pos
                    == grid.entries()[a].0;
        }
    }
    floor
}

/// A grounded arena participant drains the cell below their feet.
pub open spec fn spec_treads(p: Player) -> bool {
    p.stage == Stage::Arena && p.on_ground
}

/// The point one unit below the player's feet.
pub open spec fn spec_below_point(p: Player) -> Vec3Milli {
    Vec3Milli { x: p.pos.x, y: (p.pos.y - 1000) as i64, z: p.pos.z }
}

/// The lattice cell one unit below the player's feet.
pub open spec fn spec_below_cell(p: Player) -> LatticePos {
    spec_cell_of(spec_below_point(p))
}

/// How many of the given players are grounded arena participants
/// standing on lattice cell `pos`.
pub open spec fn count_standing(s: Seq<Player>, pos: LatticePos) -> int
    decreases s.len(),
{
    if s.len() == 0 {
        0
    } else {
        count_standing(s.drop_last(), pos) + if spec_treads(s.last()) && spec_below_cell(
            s.last(),
        ) == pos {
            1int
        } else {
            0int
        }
    }
}

proof fn lemma_count_standing_step(s: Seq<Player>, pos: LatticePos, i: int)
    requires
        0 <= i < s.len(),
    ensures
        count_standing(s.take(i + 1), pos) == count_standing(s.take(i), pos) + if spec_treads(
            s[i],
        ) && spec_below_cell(s[i]) == pos {
            1int
        } else {
            0int
        },
{
    assert(s.take(i + 1).drop_last() =~= s.take(i));
    assert(s.take(i + 1).last() == s[i]);
}

/// At most one hit point per participant per tick: the number of
/// drains on one cell never exceeds the roster size, and never goes
/// negative, so footstep damage only ever lowers hit points.
pub proof fn lemma_count_standing_bound(s: Seq<Player>, pos: LatticePos)
    ensures
        0 <= count_standing(s, pos) <= s.len(),
    decreases s.len(),
{
    if s.len() > 0 {
        lemma_count_standing_bound(s.drop_last(), pos);
    }
}

/// Footstep damage: each grounded arena participant drains one hit
/// point from the tracked cell below them. Several participants on one
/// cell stack their decrements within the same tick.
pub fn break_blocks_under_player(players: &Vec<Player>, floor: &mut DynamicBlocks)
    requires
        old(floor).wf(),
        forall|i: int|
            0 <= i < players@.len() && spec_treads(#[trigger] players@[i]) ==> {
                &&& players@[i].pos.y - 1000 >= i64::MIN
                &&& crate::geom::in_lattice_range(spec_below_point(players@[i]))
            },
        forall|k: int|
            0 <= k < old(floor).cells().len() ==> (#[trigger] old(floor).cells()[k]).state.hp
                - players@.len() >= i32::MIN,
    ensures
        final(floor).wf(),
        final(floor).cells().len() == old(floor).cells().len(),
        forall|k: int|
            0 <= k < old(floor).cells().len() ==> {
                let c0 = #[trigger] old(floor).cells()[k];
                let c1 = final(floor).cells()[k];
                let drained = count_standing(players@, c0.pos);
                c1.pos == c0.pos && c1.state.hp == c0.state.hp - drained && c1.changed == (
                c0.changed || drained > 0)
            },
{
    let n = players.len();
    let mut i: usize = 0;
    while i < n
        invariant
            floor.wf(),
            n == players@.len(),
            0 <= i <= n,
            floor.cells().len() == old(floor).cells().len(),
            forall|j: int|
                0 <= j < players@.len() && spec_treads(#[trigger] players@[j]) ==> {
                    &&& players@[j].pos.y - 1000 >= i64::MIN
                    &&& crate::geom::in_lattice_range(spec_below_point(players@[j]))
                },
            forall|k: int|
                0 <= k < old(floor).cells().len() ==> (
                #[trigger] old(floor).cells()[k]).state.hp - players@.len() >= i32::MIN,
            forall|k: int|
                0 <= k < old(floor).cells().len() ==> {
                    let c0 = #[trigger] old(floor).cells()[k];
                    let c1 = floor.cells()[k];
                    let drained = count_standing(players@.take(i as int), c0.pos);
                    c1.pos == c0.pos && c1.state.hp == c0.state.hp - drained && c1.changed == (
                    c0.changed || drained > 0)
                },
        decreases n - i,
    {
        proof {
            assert forall|pos: LatticePos|
                #[trigger] count_standing(players@.take(i + 1), pos) == count_standing(
                    players@.take(i as int),
                    pos,
                ) + (if spec_treads(players@[i as int]) && spec_below_cell(players@[i as int])
                    == pos {
                    1int
                } else {
                    0int
                }) by {
                lemma_count_standing_step(players@, pos, i as int);
            }
            assert forall|pos: LatticePos|
                0 <= #[trigger] count_standing(players@.take(i as int), pos) <= i by {
                lemma_count_standing_bound(players@.take(i as int), pos);
            }
        }
        let p = players[i];
        if matches!(p.stage, Stage::Arena) && p.on_ground {
            let below = crate::geom::cell_of(
                Vec3Milli { x: p.pos.x, y: p.pos.y - 1000, z: p.pos.z },
            );
            proof {
                assert forall|k: int|
                    0 <= k < floor.cells().len() implies (
                    #[trigger] floor.cells()[k]).state.hp > i32::MIN by {
                    let c0 = old(floor).cells()[k];
                    assert(0 <= count_standing(players@.take(i as int), c0.pos) <= i);
                }
            }
            drain_cell(floor, below);
        }
        i = i + 1;
    }
    proof {
        assert(players@.take(n as int) =~= players@);
    }
}

/// A cell whose hit points were drained to zero or below this tick: it
/// is destroyed before the next footstep pass can touch it.
pub open spec fn spec_doomed(c: FloorCell) -> bool {
    c.changed && c.state.hp <= 0
}

/// The tracker entries that survive the destruction pass, in order.
pub open spec fn spec_surviving(s: Seq<FloorCell>) -> Seq<FloorCell>
    decreases s.len(),
{
    if s.len() == 0 {
        Seq::empty()
    } else {
        let rest = spec_surviving(s.drop_last());
        if spec_doomed(s.last()) {
            rest
        } else {
            rest.push(s.last())
        }
    }
}

proof fn lemma_surviving_step(s: Seq<FloorCell>, i: int)
    requires
        0 <= i < s.len(),
    ensures
        spec_surviving(s.take(i + 1)) == if spec_doomed(s[i]) {
            spec_surviving(s.take(i))
        } else {
            spec_surviving(s.take(i)).push(s[i])
        },
{
    assert(s.take(i + 1).drop_last() =~= s.take(i));
    assert(s.take(i + 1).last() == s[i]);
}

/// Every surviving entry is one of the original entries.
proof fn lemma_surviving_members(s: Seq<FloorCell>)
    ensures
        forall|k: int|
            0 <= k < spec_surviving(s).len() ==> exists|a: int|
                0 <= a < s.len() && s[a] == #[trigger] spec_surviving(s)[k],
    decreases s.len(),
{
    if s.len() > 0 {
        lemma_surviving_members(s.drop_last());
        assert forall|k: int| 0 <= k < spec_surviving(s).len() implies exists|a: int|
            0 <= a < s.len() && s[a] == #[trigger] spec_surviving(s)[k] by {
            let rest = spec_surviving(s.drop_last());
            if !spec_doomed(s.last()) && k == rest.len() {
                assert(s[s.len() - 1] == spec_surviving(s)[k]);
            } else {
                let a = choose|a: int|
                    0 <= a < s.drop_last().len() && s.drop_last()[a] == rest[k];
                assert(s[a] == spec_surviving(s)[k]);
            }
        }
    }
}

/// The voxel grid after the destruction pass: every covered cell held
/// by a doomed tracker entry turns to air, everything else keeps its
/// material.
pub open spec fn spec_destroy_grid(
    g: Map<LatticePos, Block>,
    cells: Seq<FloorCell>,
) -> Map<LatticePos, Block> {
    Map::new(
        |p: LatticePos| g.dom().contains(p),
        |p: LatticePos|
            if exists|k: int|
                0 <= k < cells.len() && spec_doomed(#[trigger] cells[k]) && cells[k].pos
                    == p {
                Block::Air
            } else {
                g[p]
            },
    )
}

/// Removes the cells drained to zero this tick: clears their voxel to
/// air and drops them from the tracker.
pub fn destroy_broken_blocks(grid: &mut VoxelGrid, floor: &mut DynamicBlocks)
    requires
        old(grid).wf(),
        old(floor).wf(),
    ensures
        final(grid).wf(),
        final(floor).wf(),
        final(floor).cells() == spec_surviving(old(floor).cells()),
        final(grid)@ == spec_destroy_grid(old(grid)@, old(floor).cells()),
        final(grid)@.dom() == old(grid)@.dom(),
        forall|p: LatticePos|
            final(grid)@.dom().contains(p) ==> final(grid)@[p] == (if exists|k: int|
                0 <= k < old(floor).cells().len() && spec_doomed(
                    #[trigger] old(floor).cells()[k],
                ) && old(floor).cells()[k].pos == p {
                Block::Air
            } else {
                old(grid)@[p]
            }),
{
    let n = floor.cells.len();
    let mut kept: Vec<FloorCell> = Vec::new();
    let mut i: usize = 0;
    while i < n
        invariant
            grid.wf(),
            floor == old(floor),
            floor.wf(),
            n == floor.cells().len(),
            0 <= i <= n,
            kept@ == spec_surviving(floor.cells().take(i as int)),
            grid@.dom() == old(grid)@.dom(),
            forall|p: LatticePos|
                grid@.dom().contains(p) ==> grid@[p] == (if exists|k: int|
                    0 <= k < i && spec_doomed(#[trigger] floor.cells()[k])
                        && floor.cells()[k].pos == p {
                    Block::Air
                } else {
                    old(grid)@[p]
                }),
        decreases n - i,
    {
        let c = floor.cells[i];
        proof {
            lemma_surviving_step(floor.cells(), i as int);
        }
        if c.changed && c.state.hp <= 0 {
            let ghost gpre = grid@;
            grid.set(c.pos, Block::Air);
            proof {
                assert forall|p: LatticePos| grid@.dom().contains(p) implies grid@[p] == (
                if exists|k: int|
                    0 <= k < i + 1 && spec_doomed(#[trigger] floor.cells()[k])
                        && floor.cells()[k].pos == p {
                    Block::Air
                } else {
                    old(grid)@[p]
                }) by {
                    if p == c.pos {
                        assert(spec_doomed(floor.cells()[i as int])
                            && floor.cells()[i as int].pos == p);
                    } else {
                        assert(grid@[p] == gpre[p]);
                        assert forall|k: int|
                            0 <= k < i + 1 && spec_doomed(#[trigger] floor.cells()[k])
                                && floor.cells()[k].pos == p implies k < i by {}
                    }
                }
            }
        } else {
            kept.push(c);
        }
        i = i + 1;
    }
    proof {
        assert(floor.cells().take(n as int) =~= floor.cells());
        lemma_surviving_distinct(floor.cells());
        assert(grid@ =~= spec_destroy_grid(old(grid)@, floor.cells()));
    }
    floor.cells = kept;
}

/// Destruction is ordered before the next damage pass: no cell drained
/// to zero this tick survives it, so a destroyed cell can never be
/// decremented further or respond to later damage.
pub proof fn lemma_surviving_not_doomed(s: Seq<FloorCell>)
    ensures
        forall|k: int|
            0 <= k < spec_surviving(s).len() ==> !spec_doomed(#[trigger] spec_surviving(s)[k]),
    decreases s.len(),
{
    if s.len() > 0 {
        lemma_surviving_not_doomed(s.drop_last());
        let rest = spec_surviving(s.drop_last());
        assert forall|k: int|
            0 <= k < spec_surviving(s).len() implies !spec_doomed(
            #[trigger] spec_surviving(s)[k]) by {
            if spec_doomed(s.last()) || k < rest.len() {
                assert(spec_surviving(s)[k] == rest[k]);
            }
        }
    }
}

/// Distinct positions survive as distinct positions.
proof fn lemma_surviving_distinct(s: Seq<FloorCell>)
    requires
        forall|i: int, j: int|
            0 <= i < j < s.len() ==> (#[trigger] s[i]).pos != (#[trigger] s[j]).pos,
    ensures
        forall|k1: int, k2: int|
            0 <= k1 < k2 < spec_surviving(s).len() ==> (#[trigger] spec_surviving(s)[k1]).pos
                != (#[trigger] spec_surviving(s)[k2]).pos,
    decreases s.len(),
{
    if s.len() > 0 {
        let rest = spec_surviving(s.drop_last());
        lemma_surviving_distinct(s.drop_last());
        lemma_surviving_members(s.drop_last());
        assert forall|k1: int, k2: int|
            0 <= k1 < k2 < spec_surviving(s).len() implies (
            #[trigger] spec_surviving(s)[k1]).pos != (#[trigger] spec_surviving(s)[k2]).pos by {
            if !spec_doomed(s.last()) && k2 == rest.len() {
                let a = choose|a: int|
                    0 <= a < s.drop_last().len() && s.drop_last()[a] == rest[k1];
                assert(s[a].pos != s[s.len() - 1].pos);
            }
        }
    }
}

/// The damage-stage report: one entry per cell whose hit points changed
/// since the last report, in tracker order.
pub open spec fn spec_breaking_report(s: Seq<FloorCell>) -> Seq<(LatticePos, u8)>
    decreases s.len(),
{
    if s.len() == 0 {
        Seq::empty()
    } else {
        let rest = spec_breaking_report(s.drop_last());
        if s.last().changed {
            rest.push(
                (s.last().pos, spec_destroy_stage(s.last().state.hp as int) as u8),
            )
        } else {
            rest
        }
    }
}

proof fn lemma_breaking_report_step(s: Seq<FloorCell>, i: int)
    requires
        0 <= i < s.len(),
    ensures
        spec_breaking_report(s.take(i + 1)) == if s[i].changed {
            spec_breaking_report(s.take(i)).push(
                (s[i].pos, spec_destroy_stage(s[i].state.hp as int) as u8),
            )
        } else {
            spec_breaking_report(s.take(i))
        },
{
    assert(s.take(i + 1).drop_last() =~= s.take(i));
    assert(s.take(i + 1).last() == s[i]);
}

/// Collects the visible damage stage of every cell whose hit points
/// changed since the last report, and marks them reported. The change
/// flag drives the broadcast: an untouched cell is never re-sent.
pub fn send_breaking_state(floor: &mut DynamicBlocks) -> (out: Vec<(LatticePos, u8)>)
    ensures
        old(floor).wf() ==> final(floor).wf(),
        out@ == spec_breaking_report(old(floor).cells()),
        final(floor).cells().len() == old(floor).cells().len(),
        forall|k: int|
            0 <= k < old(floor).cells().len() ==> final(floor).cells()[k] == (FloorCell {
                changed: false,
                ..old(floor).cells()[k]
            }),
{
    let n = floor.cells.len();
    let mut out: Vec<(LatticePos, u8)> = Vec::new();
    let mut i: usize = 0;
    while i < n
        invariant
            n == floor.cells().len(),
            n == old(floor).cells().len(),
            0 <= i <= n,
            out@ == spec_breaking_report(old(floor).cells().take(i as int)),
            forall|k: int|
                0 <= k < i ==> floor.cells()[k] == (FloorCell {
                    changed: false,
                    ..old(floor).cells()[k]
                }),
            forall|k: int| i <= k < n ==> floor.cells()[k] == old(floor).cells()[k],
        decreases n - i,
    {
        proof {
            lemma_breaking_report_step(old(floor).cells(), i as int);
        }
        let c = floor.cells[i];
        if c.changed {
            out.push((c.pos, c.state.destroy_stage()));
        }
        floor.cells.set(i, FloorCell { changed: false, ..c });
        i = i + 1;
    }
    proof {
        assert(old(floor).cells().take(n as int) =~= old(floor).cells());
        assert forall|k1: int, k2: int|
            0 <= k1 < k2 < floor.cells().len() && old(floor).wf() implies (
            #[trigger] floor.cells()[k1]).pos != (#[trigger] floor.cells()[k2]).pos by {
            assert(old(floor).cells()[k1].pos != old(floor).cells()[k2].pos);
        }
    }
    out
}

/// Takes one hit point from the tracked cell at `below`, if there is
/// one, and marks it changed.
fn drain_cell(floor: &mut DynamicBlocks, below: LatticePos)
    requires
        old(floor).wf(),
        forall|k: int|
            0 <= k < old(floor).cells().len() ==> (#[trigger] old(floor).cells()[k]).state.hp
                > i32::MIN,
    ensures
        final(floor).wf(),
        final(floor).cells().len() == old(floor).cells().len(),
        forall|k: int|
            0 <= k < old(floor).cells().len() ==> {
                let c0 = #[trigger] old(floor).cells()[k];
                let c1 = final(floor).cells()[k];
                if c0.pos == below {
                    c1 == (FloorCell {
                        pos: c0.pos,
                        state: BreakingState { hp: (c0.state.hp - 1) as i32 },
                        changed: true,
                    })
                } else {
                    c1 == c0
                }
            },
{
    let m = floor.cells.len();
    let mut k: usize = 0;
    while k < m
        invariant
            floor.wf(),
            floor == old(floor),
            m == floor.cells().len(),
            0 <= k <= m,
            forall|j: int|
                0 <= j < old(floor).cells().len() ==> (
                #[trigger] old(floor).cells()[j]).state.hp > i32::MIN,
            forall|j: int| 0 <= j < k ==> (#[trigger] floor.cells()[j]).pos != below,
        decreases m - k,
    {
        let c = floor.cells[k];
        if c.pos == below {
            floor.cells.set(
                k,
                FloorCell {
                    pos: c.pos,
                    state: BreakingState { hp: c.state.hp - 1 },
                    changed: true,
                },
            );
            return ;
        }
        k = k + 1;
    }
}

} // verus!
