//! Rule engine for a tick-based arena minigame on a destructible voxel
//! floor. The crate covers the simulation layer only: axis-aligned region
//! geometry, the class/ability/cooldown state machine, projectile motion
//! with stepped voxel collision, progressive floor destruction with damage
//! staging, melee knockback resolution, and the participant lifecycle from
//! lobby to arena. The surrounding host (network transport, world
//! persistence, entity replication) stays outside; it exchanges plain
//! values with this library.
//!
//! Positions and velocities are carried in milli-units: signed integers
//! counting thousandths of one world unit, so one lattice cell spans 1000
//! milli-units per axis. All arithmetic on them is exact integer
//! arithmetic with explicitly stated rounding.

pub mod area;
pub mod block;
pub mod classes;
pub mod combat;
pub mod events;
pub mod floor;
pub mod geom;
pub mod grid;
pub mod level;
pub mod nbt;
pub mod player;
pub mod projectile;
pub mod sim;

use vstd::prelude::*;

verus! {

/// Fixed simulation rate: ticks per second.
pub const TICKS_PER_SECOND: i64 = 20;

} // verus!
