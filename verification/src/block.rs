//! Block materials of the arena world, reduced to what the rules read.
//!
//! The sixteen wool colours form the destructible material class of the
//! floor; four of them double as class-selection markers in the lobby.
//! Signs carry the lobby's class labels. Every other non-air material
//! behaves alike (solid, indestructible), so one variant covers them.

use vstd::prelude::*;

verus! {

/// The sixteen wool colour variants. They act as one destructible class
/// for gameplay, but the lobby scan tells colours apart to find the four
/// class-trigger markers.
#[derive(Clone, Copy, Debug, PartialEq, Eq, Structural)]
pub enum WoolColor {
    White,
    Orange,
    Magenta,
    LightBlue,
    Yellow,
    Lime,
    Pink,
    Gray,
    LightGray,
    Cyan,
    Purple,
    Blue,
    Brown,
    Green,
    Red,
    Black,
}

/// A block material, as far as the simulation distinguishes materials.
#[derive(Clone, Copy, Debug, PartialEq, Eq, Structural)]
pub enum Block {
    /// Empty space.
    Air,
    /// A destructible floor block.
    Wool(WoolColor),
    /// A sign block (any of the sign shapes), carrier of a lobby label.
    Sign,
    /// Any other, indestructible, material.
    Solid,
}

impl Block {
    /// A wool block of any colour is destructible; nothing else is.
    pub open spec fn spec_destructible(self) -> bool {
        self is Wool
    }

    pub fn is_destructible(&self) -> (r: bool)
        ensures
            r == self.spec_destructible(),
    {
        match self {
            Block::Wool(_) => true,
            _ => false,
        }
    }

    pub fn is_air(&self) -> (r: bool)
        ensures
            r == (*self is Air),
    {
        match self {
            Block::Air => true,
            _ => false,
        }
    }
}

} // verus!
