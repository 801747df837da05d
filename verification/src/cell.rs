//! The per-cell value: a material identity, the accumulated fall energy, and
//! the tick-scoped "already moved" flag, together with the phase
//! classification that decides mobility and displacement rights.

use vstd::prelude::*;

verus! {

/// Material identity of one cell. The numeric codes (0 to 3, in declaration
/// order) are the stable renderer-facing contract of [`crate::universe`].
#[derive(Clone, Copy, Debug, PartialEq, Eq, Structural)]
pub enum CellType {
    Dead,
    Sand,
    Water,
    Rock,
}

/// Mobility class of a material. A `Solid` mover may displace into `Dead` or
/// `Liquid` cells (sand sinks through water); a `Liquid` mover only into
/// `Dead` cells; `Immovable` never moves and is never displaced; `Dead` is
/// empty space.
#[derive(Clone, Copy, Debug, PartialEq, Eq, Structural)]
pub enum Phase {
    Dead,
    Solid,
    Liquid,
    Immovable,
}

/// The small-integer code of a material, as a renderer reads it.
pub open spec fn spec_code(ct: CellType) -> u8 {
    match ct {
        CellType::Dead => 0,
        CellType::Sand => 1,
        CellType::Water => 2,
        CellType::Rock => 3,
    }
}

/// The phase of a material: Dead is empty, Sand is the one solid, Water the
/// one liquid, Rock the one immovable material.
pub open spec fn spec_phase(ct: CellType) -> Phase {
    match ct {
        CellType::Dead => Phase::Dead,
        CellType::Sand => Phase::Solid,
        CellType::Water => Phase::Liquid,
        CellType::Rock => Phase::Immovable,
    }
}

impl CellType {
    /// The stable small-integer code of this material.
    pub fn code(self) -> (c: u8)
        ensures
            c == spec_code(self),
    {
        match self {
            CellType::Dead => 0,
            CellType::Sand => 1,
            CellType::Water => 2,
            CellType::Rock => 3,
        }
    }

    /// The phase of this material.
    pub fn phase(self) -> (p: Phase)
        ensures
            p == spec_phase(self),
    {
        match self {
            CellType::Dead => Phase::Dead,
            CellType::Sand => Phase::Solid,
            CellType::Water => Phase::Liquid,
            CellType::Rock => Phase::Immovable,
        }
    }
}

/// One grid cell: its material, its accumulated fall momentum, and whether it
/// has already acted as a mover during the current tick.
#[derive(Clone, Copy, Debug, PartialEq, Eq, Structural)]
pub struct Cell {
    pub id: CellType,
    /// Grows by 1 each tick the cell falls straight or diagonally down;
    /// reset to 0 when the cell settles or moves laterally.
    pub energy: u32,
    /// Tick-scoped: set when the cell acts as a mover; cleared for every cell
    /// at the end of the tick. A swap carries the flag along with the cell.
    pub has_been_updated: bool,
}

impl Cell {
    /// A fresh cell of the given material, at rest and not yet updated.
    pub fn new(ct: CellType) -> (c: Cell)
        ensures
            c == (Cell { id: ct, energy: 0, has_been_updated: false }),
    {
        Cell { id: ct, energy: 0, has_been_updated: false }
    }

    /// Overwrite the material only; energy and update flag keep their values
    /// (painting a cell does not reset its physics state).
    pub fn set_cell(&mut self, ct: CellType)
        ensures
            final(self).id == ct,
            final(self).energy == old(self).energy,
            final(self).has_been_updated == old(self).has_been_updated,
    {
        self.id = ct;
    }

    /// The phase of this cell's material.
    pub fn phase(&self) -> (p: Phase)
        ensures
            p == spec_phase(self.id),
    {
        self.id.phase()
    }
}

} // verus!
