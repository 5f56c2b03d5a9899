//! The per-tick input events the host delivers, reduced to the fields
//! the rules read. Each batch is drained exactly once per tick.

use crate::geom::LatticePos;
use vstd::prelude::*;

verus! {

/// A digging action: the acting entity and the targeted cell.
#[derive(Clone, Copy, Debug, PartialEq, Eq, Structural)]
pub struct DiggingEvent {
    pub client: u64,
    pub position: LatticePos,
}

/// An item-use action by the acting entity.
#[derive(Clone, Copy, Debug, PartialEq, Eq, Structural)]
pub struct InteractItemEvent {
    pub client: u64,
}

/// A block-interact action by the acting entity.
#[derive(Clone, Copy, Debug, PartialEq, Eq, Structural)]
pub struct InteractBlockEvent {
    pub client: u64,
}

/// A melee interaction: the attacker and the entity they hit.
#[derive(Clone, Copy, Debug, PartialEq, Eq, Structural)]
pub struct InteractEntityEvent {
    pub client: u64,
    pub entity: u64,
}

/// Whether `v` holds `id`.
pub fn contains_id(v: &Vec<u64>, id: u64) -> (r: bool)
    ensures
        r == v@.contains(id),
{
    let n = v.len();
    let mut i: usize = 0;
    while i < n
        invariant
            n == v@.len(),
            0 <= i <= n,
            forall|j: int| 0 <= j < i ==> v@[j] != id,
        decreases n - i,
    {
        if v[i] == id {
            return true;
        }
        i = i + 1;
    }
    false
}

} // verus!
