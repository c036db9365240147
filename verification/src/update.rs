//! The update stage: produces each particle's next state from its previous
//! state and the bin store.
//!
//! Per particle, the stage reads the old position and velocity, integrates
//! the position by the velocity scaled by the elapsed milliseconds, then
//! walks the (at most `capacity`) bin slots of the particle's own cell —
//! skipping the empty sentinel and the particle itself — and, for every
//! recorded neighbor within the interaction radius of the old positions,
//! displaces the particle away from the neighbor by their position offset.
//! The two members of a close pair each receive the other's negated offset,
//! so they diverge symmetrically (coincident particles have a zero offset
//! and stay together).  The integrated position finally saturates at the
//! far-outside limit `POS_LIMIT`, the one explicit boundary policy of this
//! stage; the velocity is carried over unchanged.
//!
//! The stage examines only particles recorded in the bin store, never the
//! whole population, and its output is a pure function of the old buffer,
//! the bin store and the elapsed time.

use vstd::prelude::*;

use crate::bins::{
    lemma_slot_index_in_arena, spec_bins_wf, spec_occupied, spec_ref, spec_slot, BinStore,
};
use crate::config::{lemma_grid_bounds, GridConfig, DT_MAX, POS_LIMIT, RADIUS};
use crate::grid::{cell_index_of, spec_cell_index_of};
use crate::particle::{Particle, ParticleBuffer};

verus! {

/// Whether an offset lies strictly within the interaction radius.
pub open spec fn spec_within_radius(dx: int, dy: int) -> bool {
    dx * dx + dy * dy < RADIUS * RADIUS
}

/// Saturation of a coordinate at the far-outside position limit.
pub open spec fn spec_clamp(x: int) -> int {
    if x > POS_LIMIT {
        POS_LIMIT as int
    } else if x < -POS_LIMIT {
        -POS_LIMIT as int
    } else {
        x
    }
}

/// The separation displacement particle `i` accumulates from the first `k`
/// slots of cell `c`: for each occupied slot referencing another particle
/// within the interaction radius of the old positions, the offset from that
/// neighbor to `i`.
pub open spec fn spec_cell_disp(
    cfg: GridConfig,
    bs: Seq<u32>,
    s: Seq<Particle>,
    c: int,
    i: int,
    k: int,
) -> (int, int)
    decreases k,
{
    if k <= 0 {
        (0, 0)
    } else {
        let acc = spec_cell_disp(cfg, bs, s, c, i, k - 1);
        if spec_occupied(cfg, bs, c, k - 1) {
            let j = spec_ref(cfg, bs, c, k - 1);
            if j != i && 0 <= j < s.len() && spec_within_radius(
                s[i].px - s[j].px,
                s[i].py - s[j].py,
            ) {
                (acc.0 + (s[i].px - s[j].px), acc.1 + (s[i].py - s[j].py))
            } else {
                acc
            }
        } else {
            acc
        }
    }
}

/// The next state of particle `i`: old position integrated by the old
/// velocity over `dt` milliseconds, displaced by the separation response of
/// the particle's own cell, saturated at the position limit; the velocity
/// unchanged.  A particle outside the domain has no cell and only
/// integrates.
pub open spec fn spec_update_particle(
    cfg: GridConfig,
    bs: Seq<u32>,
    s: Seq<Particle>,
    dt: int,
    i: int,
) -> Particle {
    let p = s[i];
    let ix = p.px + p.vx * dt;
    let iy = p.py + p.vy * dt;
    let d = match spec_cell_index_of(cfg, p) {
        Some(c) => spec_cell_disp(cfg, bs, s, c, i, cfg.capacity as int),
        None => (0, 0),
    };
    Particle {
        px: spec_clamp(ix + d.0) as i64,
        py: spec_clamp(iy + d.1) as i64,
        vx: p.vx,
        vy: p.vy,
    }
}

/// Whether no particle other than `i` lies within the interaction radius
/// of particle `i`.
pub open spec fn spec_isolated(s: Seq<Particle>, i: int) -> bool {
    forall|j: int|
        0 <= j < s.len() && j != i ==> !spec_within_radius(
            s[i].px - (#[trigger] s[j]).px,
            s[i].py - s[j].py,
        )
}

/// The accumulated separation displacement stays within `k` position
/// diameters.
proof fn lemma_cell_disp_bound(
    cfg: GridConfig,
    bs: Seq<u32>,
    s: Seq<Particle>,
    c: int,
    i: int,
    k: int,
)
    requires
        forall|j: int| 0 <= j < s.len() ==> (#[trigger] s[j]).bounded(),
        0 <= i < s.len(),
        0 <= k,
    ensures
        -(k * 2 * POS_LIMIT) <= spec_cell_disp(cfg, bs, s, c, i, k).0 <= k * 2 * POS_LIMIT,
        -(k * 2 * POS_LIMIT) <= spec_cell_disp(cfg, bs, s, c, i, k).1 <= k * 2 * POS_LIMIT,
    decreases k,
{
    if k > 0 {
        lemma_cell_disp_bound(cfg, bs, s, c, i, k - 1);
        assert((k - 1) * 2 * POS_LIMIT + 2 * POS_LIMIT == k * 2 * POS_LIMIT) by (nonlinear_arith);
    }
}

/// Saturation keeps a coordinate inside the position limit, and does not
/// move one already inside it.
proof fn lemma_clamp_props(x: int)
    ensures
        -POS_LIMIT <= spec_clamp(x) <= POS_LIMIT,
        -POS_LIMIT <= x <= POS_LIMIT ==> spec_clamp(x) == x,
{
}

/// The clamped coordinate as an executable value.
fn clamp(x: i64) -> (r: i64)
    ensures
        r as int == spec_clamp(x as int),
{
    if x > POS_LIMIT {
        POS_LIMIT
    } else if x < -POS_LIMIT {
        -POS_LIMIT
    } else {
        x
    }
}

/// The next state of one particle, computed as `spec_update_particle`
/// describes: integration, a walk of the particle's own bin cell, and
/// saturation.
fn update_particle(buf: &ParticleBuffer, bins: &BinStore, dt: u64, i: usize) -> (p: Particle)
    requires
        buf.wf(),
        bins.wf(),
        spec_bins_wf(bins.cfg, bins@, buf@.len() as int),
        dt <= DT_MAX,
        i < buf@.len(),
    ensures
        p == spec_update_particle(bins.cfg, bins@, buf@, dt as int, i as int),
        p.bounded(),
{
    let cfg = bins.cfg;
    let p = buf.get(i);
    proof {
        assert(buf@[i as int].bounded());
        assert(-1_000_000_000_000 <= p.vx * dt <= 1_000_000_000_000) by (nonlinear_arith)
            requires -1_000 <= p.vx <= 1_000 && 0 <= dt <= 1_000_000;
        assert(-1_000_000_000_000 <= p.vy * dt <= 1_000_000_000_000) by (nonlinear_arith)
            requires -1_000 <= p.vy <= 1_000 && 0 <= dt <= 1_000_000;
    }
    let ix: i64 = p.px + p.vx * (dt as i64);
    let iy: i64 = p.py + p.vy * (dt as i64);
    let mut dx: i64 = 0;
    let mut dy: i64 = 0;
    let cell = cell_index_of(cfg, &p);
    match cell {
        Some(c) => {
            proof {
                lemma_grid_bounds(cfg);
                assert(c * cfg.capacity + cfg.capacity == (c + 1) * cfg.capacity)
                    by (nonlinear_arith);
                assert(0 <= c * cfg.capacity && (c + 1) * cfg.capacity <= cfg.num_cells()
                    * cfg.capacity) by (nonlinear_arith)
                    requires 0 <= c < cfg.num_cells() && 0 < cfg.capacity;
            }
            let cap: usize = cfg.capacity;
            let base: usize = c * cap;
            let mut k: usize = 0;
            while k < cap
                invariant
                    buf.wf(),
                    bins.wf(),
                    bins.cfg == cfg,
                    spec_bins_wf(cfg, bins@, buf@.len() as int),
                    i < buf@.len(),
                    p == buf@[i as int],
                    0 <= c < cfg.num_cells(),
                    cap == cfg.capacity,
                    base == c * cap,
                    base + cap <= bins@.len(),
                    cfg.num_slots() <= 0x4000000,
                    k <= cap,
                    (dx as int, dy as int) == spec_cell_disp(
                        cfg,
                        bins@,
                        buf@,
                        c as int,
                        i as int,
                        k as int,
                    ),
                    -(k * 2 * POS_LIMIT) <= dx <= k * 2 * POS_LIMIT,
                    -(k * 2 * POS_LIMIT) <= dy <= k * 2 * POS_LIMIT,
                decreases cap - k,
            {
                proof {
                    lemma_slot_index_in_arena(cfg, c as int, k as int);
                    assert(buf@[i as int].bounded());
                    assert(k * 2 * POS_LIMIT <= 64 * 2 * POS_LIMIT) by (nonlinear_arith)
                        requires 0 <= k <= 64 && POS_LIMIT > 0;
                    assert((k + 1) * 2 * POS_LIMIT == k * 2 * POS_LIMIT + 2 * POS_LIMIT)
                        by (nonlinear_arith);
                }
                let v: u32 = bins.slots[base + k];
                if v != 0 {
                    let j: usize = (v - 1) as usize;
                    proof {
                        assert(bins@[base + k] == v);
                        assert(spec_slot(cfg, bins@, c as int, k as int) == v);
                        assert(j < buf@.len());
                    }
                    if j != i {
                        let q = buf.get(j);
                        proof {
                            assert(buf@[j as int].bounded());
                        }
                        let ox: i64 = p.px - q.px;
                        let oy: i64 = p.py - q.py;
                        proof {
                            assert(ox * ox <= 4_000_000_000_000_000_000 && ox * ox >= 0)
                                by (nonlinear_arith)
                                requires -2_000_000_000 <= ox <= 2_000_000_000;
                            assert(oy * oy <= 4_000_000_000_000_000_000 && oy * oy >= 0)
                                by (nonlinear_arith)
                                requires -2_000_000_000 <= oy <= 2_000_000_000;
                        }
                        if ox * ox + oy * oy < RADIUS * RADIUS {
                            dx = dx + ox;
                            dy = dy + oy;
                        }
                    }
                }
                k = k + 1;
            }
        }
        None => {},
    }
    proof {
        lemma_clamp_props(ix + dx);
        lemma_clamp_props(iy + dy);
    }
    Particle { px: clamp(ix + dx), py: clamp(iy + dy), vx: p.vx, vy: p.vy }
}

/// The update stage over the whole population: one output element per
/// particle, each a pure function of the old buffer, the bin store and the
/// elapsed time, written at the same index as its input.
pub fn update_stage(buf: &ParticleBuffer, bins: &BinStore, dt: u64) -> (out: ParticleBuffer)
    requires
        buf.wf(),
        bins.wf(),
        spec_bins_wf(bins.cfg, bins@, buf@.len() as int),
        dt <= DT_MAX,
    ensures
        out.wf(),
        out.side == buf.side,
        out@.len() == buf@.len(),
        forall|i: int|
            0 <= i < buf@.len() ==> #[trigger] out@[i] == spec_update_particle(
                bins.cfg,
                bins@,
                buf@,
                dt as int,
                i,
            ),
{
    let n: usize = buf.len();
    let mut particles: Vec<Particle> = Vec::new();
    let mut i: usize = 0;
    while i < n
        invariant
            buf.wf(),
            bins.wf(),
            spec_bins_wf(bins.cfg, bins@, buf@.len() as int),
            dt <= DT_MAX,
            n == buf@.len(),
            i <= n,
            particles@.len() == i,
            forall|j: int|
                0 <= j < i ==> #[trigger] particles@[j] == spec_update_particle(
                    bins.cfg,
                    bins@,
                    buf@,
                    dt as int,
                    j,
                ),
            forall|j: int| 0 <= j < i ==> (#[trigger] particles@[j]).bounded(),
        decreases n - i,
    {
        let p = update_particle(buf, bins, dt, i);
        particles.push(p);
        i = i + 1;
    }
    ParticleBuffer { side: buf.side, particles }
}

/// Integration fixed point: a particle with zero velocity and no other
/// particle within the interaction radius keeps its exact position and
/// velocity through the update stage.  Because the velocity is also kept,
/// the hypothesis holds again the next frame, so such a particle is
/// bit-stable across any number of frames in which it stays isolated.
pub proof fn lemma_zero_velocity_fixed_point(
    cfg: GridConfig,
    bs: Seq<u32>,
    s: Seq<Particle>,
    dt: int,
    i: int,
)
    requires
        cfg.wf(),
        spec_bins_wf(cfg, bs, s.len() as int),
        0 <= i < s.len(),
        s[i].bounded(),
        s[i].vx == 0,
        s[i].vy == 0,
        spec_isolated(s, i),
    ensures
        spec_update_particle(cfg, bs, s, dt, i) == s[i],
{
    match spec_cell_index_of(cfg, s[i]) {
        Some(c) => {
            lemma_cell_disp_isolated(cfg, bs, s, c, i, cfg.capacity as int);
        }
        None => {},
    }
    assert(s[i].vx * dt == 0) by (nonlinear_arith)
        requires s[i].vx == 0;
    assert(s[i].vy * dt == 0) by (nonlinear_arith)
        requires s[i].vy == 0;
}

/// An isolated particle accumulates no separation displacement.
proof fn lemma_cell_disp_isolated(
    cfg: GridConfig,
    bs: Seq<u32>,
    s: Seq<Particle>,
    c: int,
    i: int,
    k: int,
)
    requires
        spec_bins_wf(cfg, bs, s.len() as int),
        0 <= i < s.len(),
        spec_isolated(s, i),
    ensures
        spec_cell_disp(cfg, bs, s, c, i, k) == (0int, 0int),
    decreases k,
{
    if k > 0 {
        lemma_cell_disp_isolated(cfg, bs, s, c, i, k - 1);
    }
}

/// Determinism: the update stage's output is a pure function of the old
/// buffer, the bin store and the elapsed time — equal inputs give equal
/// outputs, with no hidden state.
pub proof fn lemma_update_deterministic(
    cfg1: GridConfig,
    cfg2: GridConfig,
    bs1: Seq<u32>,
    bs2: Seq<u32>,
    s1: Seq<Particle>,
    s2: Seq<Particle>,
    dt1: int,
    dt2: int,
)
    requires
        cfg1 == cfg2,
        bs1 == bs2,
        s1 == s2,
        dt1 == dt2,
    ensures
        forall|i: int|
            spec_update_particle(cfg1, bs1, s1, dt1, i) == spec_update_particle(
                cfg2,
                bs2,
                s2,
                dt2,
                i,
            ),
{
}

/// The separation response is symmetric: the offset particle `i` receives
/// from neighbor `j` is the exact negation of the offset `j` receives from
/// `i`, so a close pair diverges symmetrically.
pub proof fn lemma_separation_symmetric(s: Seq<Particle>, i: int, j: int)
    requires
        0 <= i < s.len(),
        0 <= j < s.len(),
    ensures
        s[i].px - s[j].px == -((s[j].px - s[i].px) as int),
        s[i].py - s[j].py == -((s[j].py - s[i].py) as int),
        spec_within_radius(s[i].px - s[j].px, s[i].py - s[j].py) == spec_within_radius(
            s[j].px - s[i].px,
            s[j].py - s[i].py,
        ),
{
    let dx = s[i].px - s[j].px;
    let dy = s[i].py - s[j].py;
    assert(dx * dx == (-dx) * (-dx) && dy * dy == (-dy) * (-dy)) by (nonlinear_arith);
}

} // verus!
