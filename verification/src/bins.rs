//! The spatial bin store: a `columns x rows x capacity` arena of particle
//! slots, rebuilt from scratch every frame.
//!
//! Each cell owns `capacity` consecutive slots in a flat vector, indexed by
//! `cell * capacity + slot`.  A slot holds `0` for "empty" (the sentinel) or
//! `i + 1` for a reference to particle `i`; consumers must never read the
//! sentinel as a particle reference.  The build pass scans the population in
//! index order and gives each in-domain particle the first free slot of its
//! cell, so the lowest particle index wins the earliest slot — the explicit,
//! deterministic tie-break rule of this implementation.  A cell that
//! receives more particles than `capacity` silently drops the excess from
//! neighbor consideration for that frame only.

use vstd::prelude::*;

use crate::config::{lemma_grid_bounds, GridConfig};
use crate::grid::{lemma_cell_index_in_range, spec_cell_index_of, cell_index_of};
use crate::particle::{Particle, ParticleBuffer};

verus! {

/// The bin store: a grid configuration and the flat slot arena.
pub struct BinStore {
    pub cfg: GridConfig,
    pub slots: Vec<u32>,
}

impl View for BinStore {
    type V = Seq<u32>;

    open spec fn view(&self) -> Seq<u32> {
        self.slots@
    }
}

/// The raw value of slot `k` of cell `c`.
pub open spec fn spec_slot(cfg: GridConfig, bs: Seq<u32>, c: int, k: int) -> u32 {
    bs[c * cfg.capacity + k]
}

/// Whether slot `k` of cell `c` holds a particle reference.
pub open spec fn spec_occupied(cfg: GridConfig, bs: Seq<u32>, c: int, k: int) -> bool {
    spec_slot(cfg, bs, c, k) != 0
}

/// The particle index referenced by an occupied slot.
pub open spec fn spec_ref(cfg: GridConfig, bs: Seq<u32>, c: int, k: int) -> int {
    spec_slot(cfg, bs, c, k) - 1
}

/// A well-formed slot arena for a population of `n` particles: the arena has
/// one value per slot, and every occupied slot references a particle.
pub open spec fn spec_bins_wf(cfg: GridConfig, bs: Seq<u32>, n: int) -> bool {
    &&& bs.len() == cfg.num_slots()
    &&& forall|t: int| 0 <= t < bs.len() ==> 0 <= #[trigger] bs[t] <= n
}

/// The particle indices below `upto` whose position maps to cell `c`, in
/// increasing index order.
pub open spec fn spec_cell_refs(cfg: GridConfig, s: Seq<Particle>, c: int, upto: int) -> Seq<int>
    decreases upto,
{
    if upto <= 0 {
        Seq::empty()
    } else {
        let pre = spec_cell_refs(cfg, s, c, upto - 1);
        if spec_cell_index_of(cfg, s[upto - 1]) == Some(c) {
            pre.push(upto - 1)
        } else {
            pre
        }
    }
}

/// The indices of the whole population that map to cell `c`.
pub open spec fn spec_full_refs(cfg: GridConfig, s: Seq<Particle>, c: int) -> Seq<int> {
    spec_cell_refs(cfg, s, c, s.len() as int)
}

/// How many particles map to cell `c`: its demand for slots.
pub open spec fn spec_cell_demand(cfg: GridConfig, s: Seq<Particle>, c: int) -> int {
    spec_full_refs(cfg, s, c).len() as int
}

/// How many of the first `upto` particles map to cell `c`, capped at the
/// cell capacity: the number of slots of cell `c` that are filled.
pub open spec fn spec_filled_len(cfg: GridConfig, s: Seq<Particle>, c: int, upto: int) -> int {
    let d = spec_cell_refs(cfg, s, c, upto).len() as int;
    if d <= cfg.capacity {
        d
    } else {
        cfg.capacity as int
    }
}

/// The value slot `k` of cell `c` holds after the first `upto` particles
/// have been partitioned: the `k`-th lowest index that maps to `c`, plus
/// one, while slots remain; the empty sentinel beyond.
pub open spec fn spec_expected_at(
    cfg: GridConfig,
    s: Seq<Particle>,
    upto: int,
    c: int,
    k: int,
) -> int {
    if k < spec_filled_len(cfg, s, c, upto) {
        spec_cell_refs(cfg, s, c, upto)[k] + 1
    } else {
        0
    }
}

/// The slot arena that partitioning the first `upto` particles of `s`
/// produces, slot by slot.
pub open spec fn spec_bins_partial(
    cfg: GridConfig,
    bs: Seq<u32>,
    s: Seq<Particle>,
    upto: int,
) -> bool {
    &&& bs.len() == cfg.num_slots()
    &&& forall|c: int, k: int|
        0 <= c < cfg.num_cells() && 0 <= k < cfg.capacity ==> #[trigger] spec_slot(
            cfg,
            bs,
            c,
            k,
        ) as int == spec_expected_at(cfg, s, upto, c, k)
}

/// The slot arena that partitioning the whole population of `s` produces:
/// the full functional description of a rebuilt bin store.
pub open spec fn spec_bins_complete(cfg: GridConfig, bs: Seq<u32>, s: Seq<Particle>) -> bool {
    spec_bins_partial(cfg, bs, s, s.len() as int)
}

/// The one slot arena that partitioning the population of `s` produces,
/// written out slot by slot.
pub open spec fn spec_built_arena(cfg: GridConfig, s: Seq<Particle>) -> Seq<u32> {
    Seq::new(
        cfg.num_slots() as nat,
        |t: int|
            spec_expected_at(
                cfg,
                s,
                s.len() as int,
                t / (cfg.capacity as int),
                t % (cfg.capacity as int),
            ) as u32,
    )
}

/// The written-out arena satisfies the slot-by-slot description.
pub proof fn lemma_built_arena_complete(cfg: GridConfig, s: Seq<Particle>)
    requires
        cfg.wf(),
        s.len() < 0x100000000,
    ensures
        spec_bins_complete(cfg, spec_built_arena(cfg, s), s),
{
    let bs = spec_built_arena(cfg, s);
    lemma_grid_bounds(cfg);
    assert forall|c: int, k: int|
        0 <= c < cfg.num_cells() && 0 <= k < cfg.capacity implies #[trigger] spec_slot(
        cfg,
        bs,
        c,
        k,
    ) as int == spec_expected_at(cfg, s, s.len() as int, c, k) by {
        lemma_slot_index_in_arena(cfg, c, k);
        let t = c * cfg.capacity + k;
        vstd::arithmetic::div_mod::lemma_fundamental_div_mod_converse(
            t,
            cfg.capacity as int,
            c,
            k,
        );
        lemma_cell_refs_props(cfg, s, c, s.len() as int);
    }
}

/// A slot arena satisfying the slot-by-slot description is the written-out
/// arena: partitioning has exactly one result.
pub proof fn lemma_complete_is_built_arena(cfg: GridConfig, bs: Seq<u32>, s: Seq<Particle>)
    requires
        cfg.wf(),
        s.len() < 0x100000000,
        spec_bins_complete(cfg, bs, s),
    ensures
        bs == spec_built_arena(cfg, s),
{
    lemma_built_arena_complete(cfg, s);
    let built = spec_built_arena(cfg, s);
    lemma_grid_bounds(cfg);
    assert forall|t: int| 0 <= t < bs.len() implies bs[t] == built[t] by {
        let c = t / (cfg.capacity as int);
        let k = t % (cfg.capacity as int);
        vstd::arithmetic::div_mod::lemma_fundamental_div_mod(t, cfg.capacity as int);
        vstd::arithmetic::div_mod::lemma_mod_bound(t, cfg.capacity as int);
        vstd::arithmetic::div_mod::lemma_div_pos_is_pos(t, cfg.capacity as int);
        assert(c < cfg.num_cells()) by (nonlinear_arith)
            requires
                t == c * cfg.capacity + k,
                0 <= k < cfg.capacity,
                t < cfg.num_cells() * cfg.capacity,
                0 <= c,
                0 < cfg.capacity,
        ;
        assert(spec_slot(cfg, bs, c, k) as int == spec_expected_at(cfg, s, s.len() as int, c, k));
        assert(spec_slot(cfg, built, c, k) as int == spec_expected_at(
            cfg,
            s,
            s.len() as int,
            c,
            k,
        ));
    }
    assert(bs =~= built);
}

/// Two distinct slots of a flat arena never alias.
proof fn lemma_slot_index_distinct(cap: int, c1: int, k1: int, c2: int, k2: int)
    requires
        0 < cap,
        0 <= k1 < cap,
        0 <= k2 < cap,
        c1 != c2,
    ensures
        c1 * cap + k1 != c2 * cap + k2,
{
    assert(c1 * cap + k1 != c2 * cap + k2) by (nonlinear_arith)
        requires 0 < cap && 0 <= k1 < cap && 0 <= k2 < cap && c1 != c2;
}

/// Every slot index of a cell lies inside the arena.
pub proof fn lemma_slot_index_in_arena(cfg: GridConfig, c: int, k: int)
    requires
        cfg.wf(),
        0 <= c < cfg.num_cells(),
        0 <= k < cfg.capacity,
    ensures
        0 <= c * cfg.capacity + k < cfg.num_slots(),
{
    assert(0 <= c * cfg.capacity && (c + 1) * cfg.capacity <= cfg.num_cells() * cfg.capacity)
        by (nonlinear_arith)
        requires 0 <= c < cfg.num_cells() && 0 < cfg.capacity;
    assert((c + 1) * cfg.capacity == c * cfg.capacity + cfg.capacity) by (nonlinear_arith);
}

/// The members of a cell's reference list: indices of particles below
/// `upto`, each mapping to that cell, in strictly increasing order.
pub proof fn lemma_cell_refs_props(cfg: GridConfig, s: Seq<Particle>, c: int, upto: int)
    requires
        0 <= upto <= s.len(),
    ensures
        spec_cell_refs(cfg, s, c, upto).len() <= upto,
        forall|j: int|
            0 <= j < spec_cell_refs(cfg, s, c, upto).len() ==> 0 <= #[trigger] spec_cell_refs(
                cfg,
                s,
                c,
                upto,
            )[j] < upto,
        forall|j: int|
            0 <= j < spec_cell_refs(cfg, s, c, upto).len() ==> spec_cell_index_of(
                cfg,
                s[#[trigger] spec_cell_refs(cfg, s, c, upto)[j]],
            ) == Some(c),
        forall|j1: int, j2: int|
            0 <= j1 < j2 < spec_cell_refs(cfg, s, c, upto).len() ==> #[trigger] spec_cell_refs(
                cfg,
                s,
                c,
                upto,
            )[j1] < #[trigger] spec_cell_refs(cfg, s, c, upto)[j2],
    decreases upto,
{
    if upto > 0 {
        lemma_cell_refs_props(cfg, s, c, upto - 1);
    }
}

/// Partitioning the whole population leaves a well-formed arena: every
/// occupied slot references a particle of the population.
pub proof fn lemma_complete_implies_wf(cfg: GridConfig, bs: Seq<u32>, s: Seq<Particle>)
    requires
        cfg.wf(),
        spec_bins_complete(cfg, bs, s),
    ensures
        spec_bins_wf(cfg, bs, s.len() as int),
{
    lemma_grid_bounds(cfg);
    assert forall|t: int| 0 <= t < bs.len() implies 0 <= #[trigger] bs[t] <= s.len() by {
        let c = t / (cfg.capacity as int);
        let k = t % (cfg.capacity as int);
        vstd::arithmetic::div_mod::lemma_fundamental_div_mod(t, cfg.capacity as int);
        vstd::arithmetic::div_mod::lemma_mod_bound(t, cfg.capacity as int);
        vstd::arithmetic::div_mod::lemma_div_pos_is_pos(t, cfg.capacity as int);
        assert(c < cfg.num_cells()) by (nonlinear_arith)
            requires
                t == c * cfg.capacity + k,
                0 <= k < cfg.capacity,
                t < cfg.num_cells() * cfg.capacity,
                0 <= c,
                0 < cfg.capacity,
        ;
        assert(spec_slot(cfg, bs, c, k) as int == spec_expected_at(cfg, s, s.len() as int, c, k));
        lemma_cell_refs_props(cfg, s, c, s.len() as int);
    }
}

impl BinStore {
    /// A well-formed bin store: an accepted configuration and one value per
    /// slot.
    pub open spec fn wf(self) -> bool {
        &&& self.cfg.wf()
        &&& self@.len() == self.cfg.num_slots()
    }

    /// An all-empty bin store: what partitioning an empty population
    /// produces, and the state a fresh system starts from.
    pub fn empty(cfg: GridConfig) -> (bins: BinStore)
        requires
            cfg.wf(),
        ensures
            bins.cfg == cfg,
            bins.wf(),
            forall|t: int| 0 <= t < bins@.len() ==> #[trigger] bins@[t] == 0,
            spec_bins_complete(cfg, bins@, Seq::<Particle>::empty()),
            spec_bins_wf(cfg, bins@, 0),
    {
        proof {
            lemma_grid_bounds(cfg);
        }
        let ncells: usize = cfg.columns * cfg.rows;
        let total: usize = ncells * cfg.capacity;
        let mut slots: Vec<u32> = Vec::new();
        let mut t: usize = 0;
        while t < total
            invariant
                t <= total,
                slots@.len() == t,
                forall|j: int| 0 <= j < t ==> #[trigger] slots@[j] == 0,
            decreases total - t,
        {
            slots.push(0);
            t = t + 1;
        }
        let bins = BinStore { cfg, slots };
        proof {
            assert forall|c: int, k: int|
                0 <= c < cfg.num_cells() && 0 <= k < cfg.capacity implies #[trigger] spec_slot(
                cfg,
                bins@,
                c,
                k,
            ) as int == spec_expected_at(cfg, Seq::<Particle>::empty(), 0, c, k) by {
                lemma_slot_index_in_arena(cfg, c, k);
            }
        }
        bins
    }

    /// The partitioning stage: rebuilds the bin store from the current
    /// particle positions.  Particles are scanned in index order; each
    /// in-domain particle takes the first free slot of its cell, and a
    /// particle whose cell is already full is dropped from this frame's
    /// neighbor consideration.  The result is exactly the arena that
    /// `spec_bins_complete` describes: slot `k` of cell `c` holds the
    /// `k`-th lowest particle index mapping to `c` while such indices
    /// remain, and the empty sentinel beyond.
    pub fn build(cfg: GridConfig, buf: &ParticleBuffer) -> (bins: BinStore)
        requires
            cfg.wf(),
            buf.wf(),
        ensures
            bins.cfg == cfg,
            bins.wf(),
            spec_bins_complete(cfg, bins@, buf@),
            spec_bins_wf(cfg, bins@, buf@.len() as int),
    {
        let mut bins = BinStore::empty(cfg);
        let n: usize = buf.len();
        proof {
            lemma_grid_bounds(cfg);
            assert(buf@.len() <= 4096 * 4096) by (nonlinear_arith)
                requires
                    buf@.len() == buf.side * buf.side,
                    buf.side <= 4096,
            ;
        }
        let mut i: usize = 0;
        while i < n
            invariant
                cfg.wf(),
                buf.wf(),
                n == buf@.len(),
                n <= 4096 * 4096,
                i <= n,
                bins.cfg == cfg,
                bins@.len() == cfg.num_slots(),
                cfg.num_slots() <= 0x4000000,
                spec_bins_partial(cfg, bins@, buf@, i as int),
                forall|t: int| 0 <= t < bins@.len() ==> #[trigger] bins@[t] <= i,
            decreases n - i,
        {
            let p = buf.get(i);
            let ghost prev = bins@;
            match cell_index_of(cfg, &p) {
                Some(c) => {
                    proof {
                        lemma_slot_index_in_arena(cfg, c as int, 0);
                        assert((c + 1) * cfg.capacity == c * cfg.capacity + cfg.capacity)
                            by (nonlinear_arith);
                        assert((c + 1) * cfg.capacity <= cfg.num_cells() * cfg.capacity)
                            by (nonlinear_arith)
                            requires c + 1 <= cfg.num_cells() && 0 < cfg.capacity;
                    }
                    let base: usize = c * cfg.capacity;
                    let mut k: usize = 0;
                    while k < cfg.capacity && bins.slots[base + k] != 0
                        invariant
                            cfg.wf(),
                            bins.cfg == cfg,
                            bins@.len() == cfg.num_slots(),
                            0 <= c < cfg.num_cells(),
                            base == c * cfg.capacity,
                            base + cfg.capacity <= bins@.len(),
                            cfg.num_slots() <= 0x4000000,
                            k <= cfg.capacity,
                            forall|j: int|
                                0 <= j < k ==> #[trigger] bins@[base + j] != 0,
                        decreases cfg.capacity - k,
                    {
                        k = k + 1;
                    }
                    let ghost m = spec_filled_len(cfg, buf@, c as int, i as int);
                    proof {
                        lemma_cell_refs_props(cfg, buf@, c as int, i as int);
                        // The scan stopped exactly at the number of filled
                        // slots of cell c.
                        if m < k {
                            // Slot m would already be the empty sentinel.
                            assert(spec_slot(cfg, bins@, c as int, m) as int == spec_expected_at(
                                cfg,
                                buf@,
                                i as int,
                                c as int,
                                m,
                            ));
                            assert(bins@[base + m] != 0);
                            assert(false);
                        }
                        assert(k as int <= m);
                        if k < cfg.capacity {
                            assert(spec_slot(cfg, bins@, c as int, k as int) as int
                                == spec_expected_at(cfg, buf@, i as int, c as int, k as int));
                            assert(bins@[base + k] == 0);
                            assert(k as int >= m);
                            assert(k as int == m);
                        } else {
                            assert(m <= cfg.capacity);
                            assert(k as int == m);
                        }
                    }
                    if k < cfg.capacity {
                        proof {
                            lemma_slot_index_in_arena(cfg, c as int, k as int);
                        }
                        let v: u32 = (i as u32) + 1;
                        bins.slots.set(base + k, v);
                    }
                    proof {
                        lemma_establish_partial_step(
                            cfg,
                            prev,
                            bins@,
                            buf@,
                            i as int,
                            c as int,
                            k as int,
                        );
                    }
                }
                None => {
                    proof {
                        assert forall|c2: int, k2: int|
                            0 <= c2 < cfg.num_cells() && 0 <= k2 < cfg.capacity
                            implies #[trigger] spec_slot(cfg, bins@, c2, k2) as int
                            == spec_expected_at(cfg, buf@, i + 1, c2, k2) by {
                            assert(spec_cell_refs(cfg, buf@, c2, i + 1) == spec_cell_refs(
                                cfg,
                                buf@,
                                c2,
                                i as int,
                            ));
                            assert(spec_slot(cfg, bins@, c2, k2) as int == spec_expected_at(
                                cfg,
                                buf@,
                                i as int,
                                c2,
                                k2,
                            ));
                        }
                    }
                }
            }
            i = i + 1;
        }
        bins
    }
}

/// One partitioning step: placing particle `i` (whose cell is `c`) into the
/// first free slot `k` of its cell — or dropping it when the cell is full —
/// turns the arena for the first `i` particles into the arena for the first
/// `i + 1`.
proof fn lemma_establish_partial_step(
    cfg: GridConfig,
    prev: Seq<u32>,
    cur: Seq<u32>,
    s: Seq<Particle>,
    i: int,
    c: int,
    k: int,
)
    requires
        cfg.wf(),
        0 <= i < s.len(),
        i < 0xffffffff,
        0 <= c < cfg.num_cells(),
        spec_cell_index_of(cfg, s[i]) == Some(c),
        spec_bins_partial(cfg, prev, s, i),
        0 <= k <= cfg.capacity,
        k == spec_filled_len(cfg, s, c, i),
        k < cfg.capacity ==> cur == prev.update(c * cfg.capacity + k, (i + 1) as u32),
        k == cfg.capacity ==> cur == prev,
    ensures
        spec_bins_partial(cfg, cur, s, i + 1),
{
    lemma_grid_bounds(cfg);
    lemma_cell_refs_props(cfg, s, c, i);
    let refs_c = spec_cell_refs(cfg, s, c, i);
    assert(spec_cell_refs(cfg, s, c, i + 1) == refs_c.push(i));
    if k < cfg.capacity {
        lemma_slot_index_in_arena(cfg, c, k);
    }
    assert forall|c2: int, k2: int|
        0 <= c2 < cfg.num_cells() && 0 <= k2 < cfg.capacity implies #[trigger] spec_slot(
        cfg,
        cur,
        c2,
        k2,
    ) as int == spec_expected_at(cfg, s, i + 1, c2, k2) by {
        lemma_slot_index_in_arena(cfg, c2, k2);
        assert(spec_slot(cfg, prev, c2, k2) as int == spec_expected_at(cfg, s, i, c2, k2));
        if c2 != c {
            assert(spec_cell_refs(cfg, s, c2, i + 1) == spec_cell_refs(cfg, s, c2, i));
            if k < cfg.capacity {
                lemma_slot_index_distinct(cfg.capacity as int, c2, k2, c, k);
            }
            assert(spec_slot(cfg, cur, c2, k2) == spec_slot(cfg, prev, c2, k2));
        } else {
            // Cell c gains member i at position refs_c.len().
            if k < cfg.capacity {
                // k == spec_filled_len(cfg, s, c, i) < capacity, so the cell
                // was not full: k == refs_c.len().
                assert(k == refs_c.len());
                assert(spec_filled_len(cfg, s, c, i + 1) == k + 1);
                if k2 < k {
                    lemma_slot_index_distinct_slots(cfg.capacity as int, c, k2, k);
                    assert(spec_slot(cfg, cur, c, k2) == spec_slot(cfg, prev, c, k2));
                    assert(refs_c.push(i)[k2] == refs_c[k2]);
                } else if k2 == k {
                    assert(cur[c * cfg.capacity + k] == (i + 1) as u32);
                    assert(refs_c.push(i)[k] == i);
                } else {
                    lemma_slot_index_distinct_slots(cfg.capacity as int, c, k2, k);
                    assert(spec_slot(cfg, cur, c, k2) == spec_slot(cfg, prev, c, k2));
                }
            } else {
                // The cell was full: every slot keeps its reference and
                // particle i is dropped.
                assert(refs_c.len() >= cfg.capacity);
                assert(spec_filled_len(cfg, s, c, i + 1) == cfg.capacity);
                assert(k2 < refs_c.len());
                assert(refs_c.push(i)[k2] == refs_c[k2]);
            }
        }
    }
}

/// Two different slot positions of one cell never alias in the arena.
proof fn lemma_slot_index_distinct_slots(cap: int, c: int, k1: int, k2: int)
    requires
        k1 != k2,
    ensures
        c * cap + k1 != c * cap + k2,
{
}

/// Cell correctness: in a rebuilt bin store, every occupied slot references
/// a particle of the population whose position maps, through the fixed
/// affine cell function, to exactly that slot's cell.
pub proof fn lemma_cell_correctness(cfg: GridConfig, bs: Seq<u32>, s: Seq<Particle>)
    requires
        cfg.wf(),
        spec_bins_complete(cfg, bs, s),
    ensures
        forall|c: int, k: int|
            0 <= c < cfg.num_cells() && 0 <= k < cfg.capacity && #[trigger] spec_occupied(
                cfg,
                bs,
                c,
                k,
            ) ==> 0 <= spec_ref(cfg, bs, c, k) < s.len() && spec_cell_index_of(
                cfg,
                s[spec_ref(cfg, bs, c, k)],
            ) == Some(c),
{
    assert forall|c: int, k: int|
        0 <= c < cfg.num_cells() && 0 <= k < cfg.capacity && #[trigger] spec_occupied(
            cfg,
            bs,
            c,
            k,
        ) implies 0 <= spec_ref(cfg, bs, c, k) < s.len() && spec_cell_index_of(
        cfg,
        s[spec_ref(cfg, bs, c, k)],
    ) == Some(c) by {
        lemma_cell_refs_props(cfg, s, c, s.len() as int);
        assert(spec_slot(cfg, bs, c, k) as int == spec_expected_at(cfg, s, s.len() as int, c, k));
    }
}

/// No duplication: in a rebuilt bin store, no particle index appears in
/// more than one (cell, slot) pair.
pub proof fn lemma_no_duplication(cfg: GridConfig, bs: Seq<u32>, s: Seq<Particle>)
    requires
        cfg.wf(),
        spec_bins_complete(cfg, bs, s),
    ensures
        forall|c1: int, k1: int, c2: int, k2: int|
            #![trigger spec_ref(cfg, bs, c1, k1), spec_ref(cfg, bs, c2, k2)]
            0 <= c1 < cfg.num_cells() && 0 <= k1 < cfg.capacity && 0 <= c2 < cfg.num_cells() && 0
                <= k2 < cfg.capacity && spec_occupied(cfg, bs, c1, k1) && spec_occupied(
                cfg,
                bs,
                c2,
                k2,
            ) && (c1 != c2 || k1 != k2) ==> spec_ref(cfg, bs, c1, k1) != spec_ref(cfg, bs, c2, k2),
{
    assert forall|c1: int, k1: int, c2: int, k2: int|
        0 <= c1 < cfg.num_cells() && 0 <= k1 < cfg.capacity && 0 <= c2 < cfg.num_cells() && 0 <= k2
            < cfg.capacity && spec_occupied(cfg, bs, c1, k1) && spec_occupied(cfg, bs, c2, k2) && (
        c1 != c2 || k1 != k2) implies #[trigger] spec_ref(cfg, bs, c1, k1)
        != #[trigger] spec_ref(cfg, bs, c2, k2) by {
        lemma_cell_refs_props(cfg, s, c1, s.len() as int);
        lemma_cell_refs_props(cfg, s, c2, s.len() as int);
        assert(spec_slot(cfg, bs, c1, k1) as int == spec_expected_at(
            cfg,
            s,
            s.len() as int,
            c1,
            k1,
        ));
        assert(spec_slot(cfg, bs, c2, k2) as int == spec_expected_at(
            cfg,
            s,
            s.len() as int,
            c2,
            k2,
        ));
        let r1 = spec_ref(cfg, bs, c1, k1);
        let r2 = spec_ref(cfg, bs, c2, k2);
        if c1 == c2 && k1 != k2 {
            if k1 < k2 {
                assert(spec_full_refs(cfg, s, c1)[k1] < spec_full_refs(cfg, s, c1)[k2]);
            } else {
                assert(spec_full_refs(cfg, s, c1)[k2] < spec_full_refs(cfg, s, c1)[k1]);
            }
        } else {
            assert(spec_cell_index_of(cfg, s[r1]) == Some(c1));
            assert(spec_cell_index_of(cfg, s[r2]) == Some(c2));
        }
    }
}

/// Number of occupied slots among the first `k` slots of cell `c`.
pub open spec fn spec_cell_count(cfg: GridConfig, bs: Seq<u32>, c: int, k: int) -> int
    decreases k,
{
    if k <= 0 {
        0
    } else {
        spec_cell_count(cfg, bs, c, k - 1) + if spec_occupied(cfg, bs, c, k - 1) {
            1int
        } else {
            0int
        }
    }
}

/// Number of occupied slots over the cells below `c`.
pub open spec fn spec_store_count(cfg: GridConfig, bs: Seq<u32>, c: int) -> int
    decreases c,
{
    if c <= 0 {
        0
    } else {
        spec_store_count(cfg, bs, c - 1) + spec_cell_count(cfg, bs, c - 1, cfg.capacity as int)
    }
}

/// Number of particles referenced across the whole bin store's populated
/// slots.
pub open spec fn spec_total_refs(cfg: GridConfig, bs: Seq<u32>) -> int {
    spec_store_count(cfg, bs, cfg.num_cells())
}

/// Sum, over the cells below `c`, of how many of the first `u` particles
/// map to the cell.
pub open spec fn spec_refs_len_sum(cfg: GridConfig, s: Seq<Particle>, u: int, c: int) -> int
    decreases c,
{
    if c <= 0 {
        0
    } else {
        spec_refs_len_sum(cfg, s, u, c - 1) + spec_cell_refs(cfg, s, c - 1, u).len()
    }
}

/// Number of particles below `upto` whose position lies inside the domain
/// (equivalently: that map to some cell).
pub open spec fn spec_in_domain_count(cfg: GridConfig, s: Seq<Particle>, upto: int) -> int
    decreases upto,
{
    if upto <= 0 {
        0
    } else {
        spec_in_domain_count(cfg, s, upto - 1) + if spec_cell_index_of(cfg, s[upto - 1]) is Some {
            1int
        } else {
            0int
        }
    }
}

/// Sum, over the cells below `c`, of the demand the cell could not seat:
/// the particles dropped from neighbor consideration.
pub open spec fn spec_dropped_sum(cfg: GridConfig, s: Seq<Particle>, c: int) -> int
    decreases c,
{
    if c <= 0 {
        0
    } else {
        spec_dropped_sum(cfg, s, c - 1) + {
            let over = spec_cell_demand(cfg, s, c - 1) - cfg.capacity;
            if over > 0 {
                over
            } else {
                0int
            }
        }
    }
}

/// Number of particles dropped from the whole frame's neighbor
/// consideration because their cell was full.
pub open spec fn spec_total_dropped(cfg: GridConfig, s: Seq<Particle>) -> int {
    spec_dropped_sum(cfg, s, cfg.num_cells())
}

/// With no particles partitioned, every cell's reference list is empty.
proof fn lemma_refs_len_sum_zero(cfg: GridConfig, s: Seq<Particle>, c: int)
    ensures
        spec_refs_len_sum(cfg, s, 0, c) == 0,
    decreases c,
{
    if c > 0 {
        lemma_refs_len_sum_zero(cfg, s, c - 1);
    }
}

/// Partitioning one more particle grows the reference lists of the cells
/// below `c` by one exactly when the particle's cell lies below `c`.
proof fn lemma_refs_len_sum_step(cfg: GridConfig, s: Seq<Particle>, u: int, c: int)
    requires
        1 <= u <= s.len(),
        0 <= c,
    ensures
        spec_refs_len_sum(cfg, s, u, c) == spec_refs_len_sum(cfg, s, u - 1, c) + (
        match spec_cell_index_of(cfg, s[u - 1]) {
            Some(ci) => if 0 <= ci < c {
                1int
            } else {
                0int
            },
            None => 0int,
        }),
    decreases c,
{
    if c > 0 {
        lemma_refs_len_sum_step(cfg, s, u, c - 1);
    }
}

/// Summed over all cells, the reference lists account for exactly the
/// in-domain particles.
proof fn lemma_refs_len_sum_total(cfg: GridConfig, s: Seq<Particle>, u: int)
    requires
        cfg.wf(),
        0 <= u <= s.len(),
    ensures
        spec_refs_len_sum(cfg, s, u, cfg.num_cells()) == spec_in_domain_count(cfg, s, u),
    decreases u,
{
    if u == 0 {
        lemma_refs_len_sum_zero(cfg, s, cfg.num_cells());
    } else {
        lemma_refs_len_sum_total(cfg, s, u - 1);
        lemma_refs_len_sum_step(cfg, s, u, cfg.num_cells());
        if spec_cell_index_of(cfg, s[u - 1]) is Some {
            lemma_cell_index_in_range(cfg, s[u - 1]);
        }
    }
}

/// In a rebuilt store, the first `k` slots of cell `c` hold
/// `min(k, filled)` references.
proof fn lemma_cell_count_filled(cfg: GridConfig, bs: Seq<u32>, s: Seq<Particle>, c: int, k: int)
    requires
        cfg.wf(),
        spec_bins_complete(cfg, bs, s),
        0 <= c < cfg.num_cells(),
        0 <= k <= cfg.capacity,
    ensures
        spec_cell_count(cfg, bs, c, k) == if k <= spec_filled_len(cfg, s, c, s.len() as int) {
            k
        } else {
            spec_filled_len(cfg, s, c, s.len() as int)
        },
    decreases k,
{
    lemma_cell_refs_props(cfg, s, c, s.len() as int);
    if k > 0 {
        lemma_cell_count_filled(cfg, bs, s, c, k - 1);
        assert(spec_slot(cfg, bs, c, k - 1) as int == spec_expected_at(
            cfg,
            s,
            s.len() as int,
            c,
            k - 1,
        ));
    }
}

/// Below any cell bound, seated references plus dropped excess equal the
/// demand.
proof fn lemma_store_count_split(cfg: GridConfig, bs: Seq<u32>, s: Seq<Particle>, c: int)
    requires
        cfg.wf(),
        spec_bins_complete(cfg, bs, s),
        0 <= c <= cfg.num_cells(),
    ensures
        spec_store_count(cfg, bs, c) + spec_dropped_sum(cfg, s, c) == spec_refs_len_sum(
            cfg,
            s,
            s.len() as int,
            c,
        ),
        spec_store_count(cfg, bs, c) >= 0,
        spec_dropped_sum(cfg, s, c) >= 0,
        spec_store_count(cfg, bs, c) <= c * cfg.capacity,
    decreases c,
{
    if c > 0 {
        lemma_store_count_split(cfg, bs, s, c - 1);
        lemma_cell_count_filled(cfg, bs, s, c - 1, cfg.capacity as int);
        assert((c - 1) * cfg.capacity + cfg.capacity == c * cfg.capacity) by (nonlinear_arith);
    }
}

/// The in-domain count never exceeds the population, and equals it when
/// every particle lies inside the domain.
proof fn lemma_in_domain_count_bounds(cfg: GridConfig, s: Seq<Particle>, upto: int)
    requires
        0 <= upto <= s.len(),
    ensures
        0 <= spec_in_domain_count(cfg, s, upto) <= upto,
        (forall|i: int| 0 <= i < s.len() ==> spec_cell_index_of(cfg, #[trigger] s[i]) is Some)
            ==> spec_in_domain_count(cfg, s, upto) == upto,
    decreases upto,
{
    if upto > 0 {
        lemma_in_domain_count_bounds(cfg, s, upto - 1);
    }
}

/// Conservation of count: a rebuilt bin store references every in-domain
/// particle except exactly those dropped by full cells.  The referenced
/// total never exceeds the population or the store's slot bound; when no
/// cell's demand exceeds the capacity nothing is dropped, and when moreover
/// every particle lies inside the domain, the total equals the population.
pub proof fn lemma_conservation_of_count(cfg: GridConfig, bs: Seq<u32>, s: Seq<Particle>)
    requires
        cfg.wf(),
        spec_bins_complete(cfg, bs, s),
    ensures
        spec_total_refs(cfg, bs) + spec_total_dropped(cfg, s) == spec_in_domain_count(
            cfg,
            s,
            s.len() as int,
        ),
        spec_total_dropped(cfg, s) >= 0,
        0 <= spec_total_refs(cfg, bs) <= s.len(),
        spec_total_refs(cfg, bs) <= cfg.num_cells() * cfg.capacity,
        (forall|c: int|
            0 <= c < cfg.num_cells() ==> #[trigger] spec_cell_demand(cfg, s, c) <= cfg.capacity)
            ==> spec_total_dropped(cfg, s) == 0,
        ((forall|c: int|
            0 <= c < cfg.num_cells() ==> #[trigger] spec_cell_demand(cfg, s, c) <= cfg.capacity)
            && (forall|i: int|
            0 <= i < s.len() ==> spec_cell_index_of(cfg, #[trigger] s[i]) is Some))
            ==> spec_total_refs(cfg, bs) == s.len(),
{
    lemma_store_count_split(cfg, bs, s, cfg.num_cells());
    lemma_refs_len_sum_total(cfg, s, s.len() as int);
    lemma_in_domain_count_bounds(cfg, s, s.len() as int);
    if forall|c: int|
        0 <= c < cfg.num_cells() ==> #[trigger] spec_cell_demand(cfg, s, c) <= cfg.capacity {
        lemma_dropped_sum_zero(cfg, s, cfg.num_cells());
    }
}

/// When no cell's demand exceeds the capacity, nothing is dropped.
proof fn lemma_dropped_sum_zero(cfg: GridConfig, s: Seq<Particle>, c: int)
    requires
        0 <= c,
        forall|c2: int|
            0 <= c2 < c ==> #[trigger] spec_cell_demand(cfg, s, c2) <= cfg.capacity,
    ensures
        spec_dropped_sum(cfg, s, c) == 0,
    decreases c,
{
    if c > 0 {
        lemma_dropped_sum_zero(cfg, s, c - 1);
    }
}

impl BinStore {
    /// The raw value of slot `k` of the cell at `(col, row)`: the empty
    /// sentinel `0`, or one plus the referenced particle index.
    pub fn slot(&self, col: usize, row: usize, k: usize) -> (v: u32)
        requires
            self.wf(),
            col < self.cfg.columns,
            row < self.cfg.rows,
            k < self.cfg.capacity,
        ensures
            v == spec_slot(self.cfg, self@, row * self.cfg.columns + col, k as int),
    {
        proof {
            lemma_grid_bounds(self.cfg);
            assert(row * self.cfg.columns + col < self.cfg.num_cells()) by (nonlinear_arith)
                requires col < self.cfg.columns && row < self.cfg.rows && self.cfg.columns >= 1;
            lemma_slot_index_in_arena(
                self.cfg,
                (row * self.cfg.columns + col) as int,
                k as int,
            );
        }
        let c: usize = row * self.cfg.columns + col;
        self.slots[c * self.cfg.capacity + k]
    }

    /// Counts the occupied slots of the whole store.
    pub fn count_refs(&self) -> (n: usize)
        requires
            self.wf(),
        ensures
            n == spec_total_refs(self.cfg, self@),
    {
        proof {
            lemma_grid_bounds(self.cfg);
        }
        let ncells: usize = self.cfg.columns * self.cfg.rows;
        let cap: usize = self.cfg.capacity;
        let mut n: usize = 0;
        let mut c: usize = 0;
        while c < ncells
            invariant
                self.wf(),
                ncells == self.cfg.num_cells(),
                cap == self.cfg.capacity,
                c <= ncells,
                n == spec_store_count(self.cfg, self@, c as int),
                n <= c * cap,
                ncells * cap <= 0x4000000,
            decreases ncells - c,
        {
            let mut k: usize = 0;
            let mut cell_n: usize = 0;
            while k < cap
                invariant
                    self.wf(),
                    ncells == self.cfg.num_cells(),
                    cap == self.cfg.capacity,
                    c < ncells,
                    k <= cap,
                    ncells * cap <= 0x4000000,
                    cell_n == spec_cell_count(self.cfg, self@, c as int, k as int),
                    cell_n <= k,
                decreases cap - k,
            {
                proof {
                    lemma_slot_index_in_arena(self.cfg, c as int, k as int);
                }
                if self.slots[c * cap + k] != 0 {
                    cell_n = cell_n + 1;
                }
                k = k + 1;
            }
            proof {
                assert(c * cap + cap == (c + 1) * cap) by (nonlinear_arith);
                assert((c + 1) * cap <= ncells * cap) by (nonlinear_arith)
                    requires c + 1 <= ncells && cap >= 1;
            }
            n = n + cell_n;
            c = c + 1;
        }
        n
    }
}

} // verus!
