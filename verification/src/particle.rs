//! The closed set of particle kinds and their per-kind display colors.

use vstd::prelude::*;

verus! {

/// One kind of simulated matter. Exactly one particle occupies each grid
/// cell at all times; motion is expressed as one step's source cell becoming
/// `Empty` and the destination cell becoming the moved kind.
#[derive(Clone, Copy, PartialEq, Eq, Structural, Debug)]
pub enum Particle {
    /// Vacuum; any denser particle may move into it.
    Empty,
    /// Granular solid: falls under gravity, slides to a lower diagonal when
    /// blocked straight down.
    Sand,
    /// Liquid: falls like sand, but also spreads to an open side at the same
    /// height when every downward move is blocked.
    Water,
    /// Immovable: never moves and is never moved through.
    Wall,
}

/// The fixed display color of each kind, or `None` for `Empty`, which is not
/// drawn. This is a pure lookup used by the rendering boundary; it plays no
/// part in the transition rules.
pub open spec fn color_of(p: Particle) -> Option<(u8, u8, u8)> {
    match p {
        Particle::Empty => None,
        Particle::Sand => Some((0xc2, 0xb2, 0x80)),
        Particle::Water => Some((0x3a, 0x75, 0xc4)),
        Particle::Wall => Some((0x88, 0x88, 0x88)),
    }
}

impl Particle {
    /// The display color of this kind, or `None` when the cell is not drawn.
    pub fn color(&self) -> (c: Option<(u8, u8, u8)>)
        ensures
            c == color_of(*self),
    {
        match self {
            Particle::Empty => None,
            Particle::Sand => Some((0xc2, 0xb2, 0x80)),
            Particle::Water => Some((0x3a, 0x75, 0xc4)),
            Particle::Wall => Some((0x88, 0x88, 0x88)),
        }
    }
}

impl Default for Particle {
    /// A fresh cell holds vacuum.
    fn default() -> (p: Self)
        ensures
            p == Particle::Empty,
    {
        Particle::Empty
    }
}

} // verus!
