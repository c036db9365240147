//! The affine map from simulation space to grid cells.
//!
//! A position inside the domain square `[-SCALE, SCALE)` maps to the cell
//! whose column is `((x + SCALE) * columns) / (2 * SCALE)` and whose row is
//! `((y + SCALE) * rows) / (2 * SCALE)`.  A position outside the domain maps
//! to no cell: such a particle is not binned and takes part in no neighbor
//! interaction that frame.  The partitioning stage and the update stage both
//! use this one map, so they agree on every particle's cell.

use vstd::prelude::*;

use crate::config::{GridConfig, DOMAIN_MAX, DOMAIN_MIN, SCALE};
use crate::particle::Particle;

verus! {

/// Whether a position lies inside the simulation domain square.
pub open spec fn spec_in_domain(px: int, py: int) -> bool {
    &&& DOMAIN_MIN <= px < DOMAIN_MAX
    &&& DOMAIN_MIN <= py < DOMAIN_MAX
}

/// The affine map of one in-domain coordinate onto `0 .. lanes`.
pub open spec fn spec_cell_axis(lanes: int, x: int) -> int {
    ((x + SCALE) * lanes) / (2 * SCALE)
}

/// The cell of a position: `Some((column, row))` inside the domain, `None`
/// outside it.
pub open spec fn spec_cell_of(cfg: GridConfig, px: int, py: int) -> Option<(int, int)> {
    if spec_in_domain(px, py) {
        Some((spec_cell_axis(cfg.columns as int, px), spec_cell_axis(cfg.rows as int, py)))
    } else {
        None
    }
}

/// The linear cell index of a particle's position: row-major over the grid,
/// `None` outside the domain.
pub open spec fn spec_cell_index_of(cfg: GridConfig, p: Particle) -> Option<int> {
    match spec_cell_of(cfg, p.px as int, p.py as int) {
        Some(cell) => Some(cell.1 * cfg.columns + cell.0),
        None => None,
    }
}

/// The affine axis map lands inside `0 .. lanes`.
pub proof fn lemma_cell_axis_in_range(lanes: int, x: int)
    requires
        1 <= lanes,
        DOMAIN_MIN <= x < DOMAIN_MAX,
    ensures
        0 <= spec_cell_axis(lanes, x) < lanes,
{
    assert((x + SCALE) * lanes < (2 * SCALE) * lanes) by (nonlinear_arith)
        requires 0 <= x + SCALE < 2 * SCALE && 1 <= lanes;
    assert((x + SCALE) * lanes >= 0) by (nonlinear_arith)
        requires 0 <= x + SCALE && 1 <= lanes;
    vstd::arithmetic::div_mod::lemma_multiply_divide_lt((x + SCALE) * lanes, 2 * SCALE, lanes);
    vstd::arithmetic::div_mod::lemma_div_pos_is_pos((x + SCALE) * lanes, 2 * SCALE);
}

/// An in-domain particle's linear cell index lies inside the grid.
pub proof fn lemma_cell_index_in_range(cfg: GridConfig, p: Particle)
    requires
        cfg.wf(),
        spec_cell_index_of(cfg, p) is Some,
    ensures
        0 <= spec_cell_index_of(cfg, p)->Some_0 < cfg.num_cells(),
{
    let col = spec_cell_axis(cfg.columns as int, p.px as int);
    let row = spec_cell_axis(cfg.rows as int, p.py as int);
    lemma_cell_axis_in_range(cfg.columns as int, p.px as int);
    lemma_cell_axis_in_range(cfg.rows as int, p.py as int);
    assert(row * cfg.columns + col < cfg.rows * cfg.columns) by (nonlinear_arith)
        requires
            0 <= col < cfg.columns,
            0 <= row <= cfg.rows - 1,
    ;
    assert(cfg.rows * cfg.columns == cfg.columns * cfg.rows) by (nonlinear_arith);
    assert(row * cfg.columns + col >= 0) by (nonlinear_arith)
        requires 0 <= col && 0 <= row && cfg.columns >= 1;
}

/// The cell of a position, as the partitioning and update stages compute it.
pub fn cell_of(cfg: GridConfig, px: i64, py: i64) -> (r: Option<(usize, usize)>)
    requires
        cfg.wf(),
    ensures
        r is Some <==> spec_cell_of(cfg, px as int, py as int) is Some,
        r is Some ==> {
            &&& r->Some_0.0 as int == spec_cell_of(cfg, px as int, py as int)->Some_0.0
            &&& r->Some_0.1 as int == spec_cell_of(cfg, px as int, py as int)->Some_0.1
            &&& r->Some_0.0 < cfg.columns
            &&& r->Some_0.1 < cfg.rows
        },
{
    if DOMAIN_MIN <= px && px < DOMAIN_MAX && DOMAIN_MIN <= py && py < DOMAIN_MAX {
        proof {
            lemma_cell_axis_in_range(cfg.columns as int, px as int);
            lemma_cell_axis_in_range(cfg.rows as int, py as int);
            assert((px + SCALE) * cfg.columns <= 2_000_000 * 1024) by (nonlinear_arith)
                requires 0 <= px + SCALE <= 2_000_000 && cfg.columns <= 1024;
            assert((py + SCALE) * cfg.rows <= 2_000_000 * 1024) by (nonlinear_arith)
                requires 0 <= py + SCALE <= 2_000_000 && cfg.rows <= 1024;
        }
        let col: u64 = (((px + SCALE) as u64) * (cfg.columns as u64)) / ((2 * SCALE) as u64);
        let row: u64 = (((py + SCALE) as u64) * (cfg.rows as u64)) / ((2 * SCALE) as u64);
        Some((col as usize, row as usize))
    } else {
        None
    }
}

/// The linear cell index of a particle, `None` outside the domain.
pub fn cell_index_of(cfg: GridConfig, p: &Particle) -> (r: Option<usize>)
    requires
        cfg.wf(),
    ensures
        r is Some <==> spec_cell_index_of(cfg, *p) is Some,
        r is Some ==> r->Some_0 as int == spec_cell_index_of(cfg, *p)->Some_0,
        r is Some ==> r->Some_0 < cfg.num_cells(),
{
    match cell_of(cfg, p.px, p.py) {
        Some((col, row)) => {
            proof {
                lemma_cell_index_in_range(cfg, *p);
                crate::config::lemma_grid_bounds(cfg);
            }
            Some(row * cfg.columns + col)
        }
        None => None,
    }
}

} // verus!
