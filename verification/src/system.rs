//! The frame orchestrator: owns both particle buffers, the bin store and
//! the surface dimensions, and sequences the three per-frame stages.
//!
//! Each frame runs `Draw(current) -> Partition(current) -> Update(current
//! -> other)` and then flips the parity so the freshly written buffer
//! becomes current for the following frame.  No stage ever writes the
//! buffer it reads: the two buffers are independently owned and only the
//! parity selector decides their roles.  A resize only changes the surface
//! dimensions used by the draw stage's point-size computation — grid
//! counts, particle count and bin capacity are fixed for the system's
//! lifetime.

use vstd::prelude::*;

use crate::bins::{lemma_built_arena_complete, lemma_complete_implies_wf,
    lemma_complete_is_built_arena, spec_bins_complete, spec_built_arena, BinStore};
use crate::config::{GridConfig, DT_MAX, MAX_SIDE, MAX_SURFACE, RAND_ONE};
use crate::draw::{point_size, spec_point_size};
use crate::particle::{generate_particles, in_seed_ranges, spec_seeded_particle, Particle,
    ParticleBuffer};
use crate::update::{lemma_zero_velocity_fixed_point, spec_isolated, spec_update_particle,
    update_stage};

verus! {

/// The current buffer after one whole frame — partitioning the current
/// positions and updating every particle against the resulting bins — as a
/// pure function of the configuration, the current buffer and the elapsed
/// time.
pub open spec fn spec_frame_step(cfg: GridConfig, s: Seq<Particle>, dt: int) -> Seq<Particle> {
    Seq::new(s.len(), |i: int| spec_update_particle(cfg, spec_built_arena(cfg, s), s, dt, i))
}

/// The current buffer after a run of frames with the given elapsed times.
pub open spec fn spec_frame_iter(cfg: GridConfig, s: Seq<Particle>, dts: Seq<int>) -> Seq<
    Particle,
>
    decreases dts.len(),
{
    if dts.len() == 0 {
        s
    } else {
        spec_frame_iter(cfg, spec_frame_step(cfg, s, dts[0]), dts.subrange(1, dts.len() as int))
    }
}

/// Bit-stability of an isolated particle at rest: a particle with zero
/// velocity that, in every frame of a run, has no other particle within
/// the interaction radius, holds its exact position and velocity across
/// the whole run, whatever the frame times.
pub proof fn lemma_isolated_particle_bit_stable(
    cfg: GridConfig,
    s: Seq<Particle>,
    dts: Seq<int>,
    i: int,
)
    requires
        cfg.wf(),
        s.len() < 0x100000000,
        0 <= i < s.len(),
        s[i].bounded(),
        s[i].vx == 0,
        s[i].vy == 0,
        forall|t: int|
            0 <= t < dts.len() ==> spec_isolated(
                spec_frame_iter(cfg, s, #[trigger] dts.take(t)),
                i,
            ),
    ensures
        spec_frame_iter(cfg, s, dts).len() == s.len(),
        spec_frame_iter(cfg, s, dts)[i] == s[i],
    decreases dts.len(),
{
    if dts.len() > 0 {
        let s1 = spec_frame_step(cfg, s, dts[0]);
        assert(dts.take(0) =~= Seq::<int>::empty());
        assert(spec_frame_iter(cfg, s, dts.take(0)) == s);
        assert(spec_isolated(s, i));
        lemma_built_arena_complete(cfg, s);
        lemma_complete_implies_wf(cfg, spec_built_arena(cfg, s), s);
        lemma_zero_velocity_fixed_point(cfg, spec_built_arena(cfg, s), s, dts[0], i);
        assert(s1[i] == s[i]);
        let rest = dts.subrange(1, dts.len() as int);
        assert forall|t: int| 0 <= t < rest.len() implies spec_isolated(
            spec_frame_iter(cfg, s1, #[trigger] rest.take(t)),
            i,
        ) by {
            assert(dts.take(t + 1).len() == t + 1);
            assert(dts.take(t + 1)[0] == dts[0]);
            assert(dts.take(t + 1).subrange(1, t + 1) =~= rest.take(t));
            assert(spec_frame_iter(cfg, s, dts.take(t + 1)) == spec_frame_iter(
                cfg,
                s1,
                rest.take(t),
            ));
            assert(spec_isolated(spec_frame_iter(cfg, s, dts.take(t + 1)), i));
        }
        lemma_isolated_particle_bit_stable(cfg, s1, rest, i);
        assert(spec_frame_iter(cfg, s, dts) == spec_frame_iter(cfg, s1, rest));
    }
}

/// The simulation system: configuration, the two state buffers, the bin
/// store, the parity selector and the surface dimensions.
pub struct System {
    pub cfg: GridConfig,
    pub buf_a: ParticleBuffer,
    pub buf_b: ParticleBuffer,
    pub bins: BinStore,
    pub parity: bool,
    pub surface_width: u32,
    pub surface_height: u32,
}

impl System {
    /// A well-formed system: both buffers square, equally sized and
    /// bounded, the bin store sized for the grid, the surface dimensions in
    /// range.
    pub open spec fn wf(self) -> bool {
        &&& self.cfg.wf()
        &&& self.buf_a.wf()
        &&& self.buf_b.wf()
        &&& self.buf_b.side == self.buf_a.side
        &&& self.bins.cfg == self.cfg
        &&& self.bins.wf()
        &&& 1 <= self.surface_width <= MAX_SURFACE
        &&& 1 <= self.surface_height <= MAX_SURFACE
    }

    /// The buffer that is authoritative this frame.
    pub open spec fn current(self) -> Seq<Particle> {
        if self.parity {
            self.buf_b@
        } else {
            self.buf_a@
        }
    }

    /// The buffer the next update pass will write.
    pub open spec fn other(self) -> Seq<Particle> {
        if self.parity {
            self.buf_a@
        } else {
            self.buf_b@
        }
    }

    /// One-time setup from an already seeded buffer: the seeded buffer
    /// becomes current, the other buffer starts zeroed, the bin store
    /// starts empty, and the given surface dimensions drive the draw
    /// stage.
    pub fn initialize(cfg: GridConfig, seeded: ParticleBuffer, width: u32, height: u32) -> (sys:
        System)
        requires
            cfg.wf(),
            seeded.wf(),
            1 <= width <= MAX_SURFACE,
            1 <= height <= MAX_SURFACE,
        ensures
            sys.wf(),
            sys.cfg == cfg,
            !sys.parity,
            sys.current() == seeded@,
            sys.current().len() == seeded@.len(),
            forall|i: int| 0 <= i < sys.other().len() ==> (#[trigger] sys.other()[i]).is_zero(),
            sys.other().len() == seeded@.len(),
            sys.surface_width == width,
            sys.surface_height == height,
    {
        let side = seeded.side;
        let blank = ParticleBuffer::zeroed(side);
        let bins = BinStore::empty(cfg);
        System {
            cfg,
            buf_a: seeded,
            buf_b: blank,
            bins,
            parity: false,
            surface_width: width,
            surface_height: height,
        }
    }

    /// The bootstrap entry point: seeds a square population of side `side`
    /// from the given unit-interval random values and builds the system
    /// around it.
    pub fn bootstrap(cfg: GridConfig, side: usize, seeds: &Vec<u64>, width: u32, height: u32)
        -> (sys: System)
        requires
            cfg.wf(),
            side <= MAX_SIDE,
            seeds@.len() == 4 * (side * side),
            forall|r: int| 0 <= r < seeds@.len() ==> #[trigger] seeds@[r] < RAND_ONE,
            1 <= width <= MAX_SURFACE,
            1 <= height <= MAX_SURFACE,
        ensures
            sys.wf(),
            sys.cfg == cfg,
            !sys.parity,
            sys.current().len() == side * side,
            forall|i: int|
                0 <= i < sys.current().len() ==> #[trigger] sys.current()[i]
                    == spec_seeded_particle(seeds@, i),
            forall|i: int| 0 <= i < sys.current().len() ==> in_seed_ranges(
                #[trigger] sys.current()[i],
            ),
            sys.surface_width == width,
            sys.surface_height == height,
    {
        let seeded = generate_particles(side, seeds);
        System::initialize(cfg, seeded, width, height)
    }

    /// One frame: the draw stage reads the current buffer (returning the
    /// point size it renders with), the partitioning stage rebuilds the bin
    /// store from the current positions, the update stage writes the other
    /// buffer from the current buffer and the fresh bins, and the parity
    /// flips.  The buffer that was read is untouched: it becomes the next
    /// frame's write target with its contents intact.
    pub fn frame(&mut self, dt: u64) -> (ps: i64)
        requires
            old(self).wf(),
            dt <= DT_MAX,
        ensures
            final(self).wf(),
            ps == spec_point_size(
                old(self).surface_width as int,
                old(self).surface_height as int,
            ),
            final(self).cfg == old(self).cfg,
            final(self).surface_width == old(self).surface_width,
            final(self).surface_height == old(self).surface_height,
            final(self).parity == !old(self).parity,
            final(self).other() == old(self).current(),
            spec_bins_complete(old(self).cfg, final(self).bins@, old(self).current()),
            final(self).current().len() == old(self).current().len(),
            forall|i: int|
                0 <= i < old(self).current().len() ==> #[trigger] final(self).current()[i]
                    == spec_update_particle(
                    old(self).cfg,
                    final(self).bins@,
                    old(self).current(),
                    dt as int,
                    i,
                ),
            final(self).current() == spec_frame_step(old(self).cfg, old(self).current(), dt as int),
    {
        // Draw stage: reads the current buffer and the surface dimensions,
        // mutates nothing.
        let ps = point_size(self.surface_width, self.surface_height);
        // Partitioning stage: rebuilds the bin store from the current
        // positions.
        // Update stage: writes the other buffer from the current buffer and
        // the fresh bins.
        if self.parity {
            let bins = BinStore::build(self.cfg, &self.buf_b);
            let next = update_stage(&self.buf_b, &bins, dt);
            self.buf_a = next;
            self.bins = bins;
        } else {
            let bins = BinStore::build(self.cfg, &self.buf_a);
            let next = update_stage(&self.buf_a, &bins, dt);
            self.buf_b = next;
            self.bins = bins;
        }
        // Parity flip: the freshly written buffer becomes current.
        self.parity = !self.parity;
        proof {
            let s = old(self).current();
            let side = if old(self).parity {
                old(self).buf_b.side as int
            } else {
                old(self).buf_a.side as int
            };
            let len = s.len() as int;
            assert(len == side * side && 0 <= side <= 4096);
            assert(len <= 4096 * 4096) by (nonlinear_arith)
                requires
                    len == side * side,
                    0 <= side <= 4096,
            ;
            lemma_complete_is_built_arena(self.cfg, self.bins@, s);
            assert(self.current() =~= spec_frame_step(self.cfg, s, dt as int));
        }
        ps
    }

    /// A resize notification: updates the surface dimensions the next
    /// frame's draw stage computes its point size from.  Simulation
    /// buffers, bin store, parity and configuration are untouched.
    pub fn on_resize(&mut self, width: u32, height: u32)
        requires
            old(self).wf(),
            1 <= width <= MAX_SURFACE,
            1 <= height <= MAX_SURFACE,
        ensures
            final(self).wf(),
            final(self).surface_width == width,
            final(self).surface_height == height,
            final(self).cfg == old(self).cfg,
            final(self).buf_a == old(self).buf_a,
            final(self).buf_b == old(self).buf_b,
            final(self).bins == old(self).bins,
            final(self).parity == old(self).parity,
    {
        self.surface_width = width;
        self.surface_height = height;
    }

    /// The point size the next frame's draw stage will use.
    pub fn point_size(&self) -> (ps: i64)
        requires
            self.wf(),
        ensures
            ps == spec_point_size(self.surface_width as int, self.surface_height as int),
    {
        point_size(self.surface_width, self.surface_height)
    }

    /// The buffer that is authoritative this frame, for rendering.
    pub fn current_buffer(&self) -> (buf: &ParticleBuffer)
        ensures
            buf@ == self.current(),
    {
        if self.parity {
            &self.buf_b
        } else {
            &self.buf_a
        }
    }

    /// Number of particles in the population.
    pub fn population(&self) -> (n: usize)
        ensures
            n == self.current().len(),
    {
        if self.parity {
            self.buf_b.len()
        } else {
            self.buf_a.len()
        }
    }
}

} // verus!
