//! Fixed simulation constants and the grid configuration.
//!
//! All lengths are fixed-point integers: one world unit is `SCALE` subunits.
//! The visible simulation domain is the square `[-SCALE, SCALE)` on each
//! axis.  Velocities are stored in subunits per millisecond, so integrating
//! over a frame time of `dt` milliseconds is a plain multiplication.

use vstd::prelude::*;

verus! {

/// Subunits per world unit.
pub const SCALE: i64 = 1_000_000;

/// Lower edge of the simulation domain, in subunits.
pub const DOMAIN_MIN: i64 = -1_000_000;

/// Upper edge of the simulation domain, in subunits (exclusive).
pub const DOMAIN_MAX: i64 = 1_000_000;

/// Particle interaction (and draw) radius, in subunits.
///
/// This is far smaller than a cell's extent (`2 * SCALE / columns`), so a
/// same-cell neighbor lookup covers the interaction radius.
pub const RADIUS: i64 = 1447;

/// Magnitude bound for seeded velocities, in subunits per millisecond.
/// `100` subunits per millisecond is a tenth of a world unit per second.
pub const VEL_SEED_LIMIT: i64 = 100;

/// Invariant bound on every stored velocity component, in subunits per
/// millisecond.  Seeding stays well inside it and the update stage never
/// changes a velocity.
pub const VEL_LIMIT: i64 = 1_000;

/// Invariant bound on every stored position component, in subunits.
/// Positions may leave the visible domain; integration saturates them at
/// this far-outside limit so that every frame's arithmetic stays in range.
pub const POS_LIMIT: i64 = 1_000_000_000;

/// Largest frame time accepted by the update stage, in milliseconds.
pub const DT_MAX: u64 = 1_000_000;

/// Denominator of the unit interval for random seed values: a seed value
/// `r` with `0 <= r < RAND_ONE` stands for the real number `r / RAND_ONE`.
pub const RAND_ONE: u64 = 1_048_576;

/// Largest accepted side length of the square particle state store.
pub const MAX_SIDE: usize = 4096;

/// Largest accepted column or row count of the bin grid.
pub const MAX_GRID: usize = 1024;

/// Largest accepted per-cell bin capacity.
pub const MAX_CAPACITY: usize = 64;

/// Largest accepted surface dimension, in pixels.
pub const MAX_SURFACE: u32 = 65536;

/// Dimensions of the spatial bin grid: `columns x rows` cells, each with up
/// to `capacity` particle slots.  Fixed once at initialization.
#[derive(Clone, Copy, Debug, PartialEq, Eq, Structural)]
pub struct GridConfig {
    pub columns: usize,
    pub rows: usize,
    pub capacity: usize,
}

impl GridConfig {
    /// The bounds every grid configuration must satisfy.
    pub open spec fn wf(self) -> bool {
        &&& 1 <= self.columns <= MAX_GRID
        &&& 1 <= self.rows <= MAX_GRID
        &&& 1 <= self.capacity <= MAX_CAPACITY
    }

    /// Number of cells in the grid.
    pub open spec fn num_cells(self) -> int {
        self.columns * self.rows
    }

    /// Number of slots in the whole bin store.
    pub open spec fn num_slots(self) -> int {
        self.num_cells() * self.capacity
    }

    /// The canonical configuration: a 128 x 128 grid with four slots per
    /// cell.
    pub fn standard() -> (cfg: GridConfig)
        ensures
            cfg.columns == 128,
            cfg.rows == 128,
            cfg.capacity == 4,
            cfg.wf(),
    {
        GridConfig { columns: 128, rows: 128, capacity: 4 }
    }

    /// A grid configuration, checked against the accepted bounds.
    pub fn new(columns: usize, rows: usize, capacity: usize) -> (r: Option<GridConfig>)
        ensures
            r is Some <==> (1 <= columns <= MAX_GRID && 1 <= rows <= MAX_GRID
                && 1 <= capacity <= MAX_CAPACITY),
            r is Some ==> {
                &&& r->Some_0.columns == columns
                &&& r->Some_0.rows == rows
                &&& r->Some_0.capacity == capacity
                &&& r->Some_0.wf()
            },
    {
        if 1 <= columns && columns <= MAX_GRID && 1 <= rows && rows <= MAX_GRID
            && 1 <= capacity && capacity <= MAX_CAPACITY
        {
            Some(GridConfig { columns, rows, capacity })
        } else {
            None
        }
    }
}

/// The grid bounds keep every slot count within machine range.
pub proof fn lemma_grid_bounds(cfg: GridConfig)
    requires
        cfg.wf(),
    ensures
        1 <= cfg.num_cells() <= 0x100000,
        1 <= cfg.num_slots() <= 0x4000000,
{
    assert(cfg.columns * cfg.rows <= 0x100000 && cfg.columns * cfg.rows >= 1)
        by (nonlinear_arith)
        requires 1 <= cfg.columns <= 1024 && 1 <= cfg.rows <= 1024;
    assert(cfg.num_cells() * cfg.capacity <= 0x4000000 && cfg.num_cells() * cfg.capacity >= 1)
        by (nonlinear_arith)
        requires 1 <= cfg.num_cells() <= 0x100000 && 1 <= cfg.capacity <= 64;
}

} // verus!
