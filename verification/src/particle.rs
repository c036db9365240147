//! The particle record and the double-buffered particle state store.

use vstd::prelude::*;

use crate::config::{
    DOMAIN_MAX, DOMAIN_MIN, MAX_SIDE, POS_LIMIT, RAND_ONE, SCALE, VEL_LIMIT, VEL_SEED_LIMIT,
};

verus! {

/// One particle: a position and a velocity, both in fixed-point subunits
/// (velocity in subunits per millisecond).  A particle has no identity
/// beyond its index in the state store.
#[derive(Clone, Copy, Debug, PartialEq, Eq, Structural)]
pub struct Particle {
    pub px: i64,
    pub py: i64,
    pub vx: i64,
    pub vy: i64,
}

impl Particle {
    /// Every stored particle keeps its position inside the saturation limit
    /// and its velocity inside the velocity bound.
    pub open spec fn bounded(self) -> bool {
        &&& -POS_LIMIT <= self.px <= POS_LIMIT
        &&& -POS_LIMIT <= self.py <= POS_LIMIT
        &&& -VEL_LIMIT <= self.vx <= VEL_LIMIT
        &&& -VEL_LIMIT <= self.vy <= VEL_LIMIT
    }

    /// Whether every component of this particle is zero.
    pub open spec fn is_zero(self) -> bool {
        self.px == 0 && self.py == 0 && self.vx == 0 && self.vy == 0
    }

    /// The all-zero record, used to fill a buffer whose contents are
    /// overwritten before they are ever read.
    pub fn zero() -> (p: Particle)
        ensures
            p.is_zero(),
            p.bounded(),
    {
        Particle { px: 0, py: 0, vx: 0, vy: 0 }
    }

    /// A particle from explicit components, checked against the bounds.
    pub fn new(px: i64, py: i64, vx: i64, vy: i64) -> (r: Option<Particle>)
        ensures
            r is Some <==> (-POS_LIMIT <= px <= POS_LIMIT && -POS_LIMIT <= py <= POS_LIMIT
                && -VEL_LIMIT <= vx <= VEL_LIMIT && -VEL_LIMIT <= vy <= VEL_LIMIT),
            r is Some ==> {
                &&& r->Some_0.px == px
                &&& r->Some_0.py == py
                &&& r->Some_0.vx == vx
                &&& r->Some_0.vy == vy
                &&& r->Some_0.bounded()
            },
    {
        if -POS_LIMIT <= px && px <= POS_LIMIT && -POS_LIMIT <= py && py <= POS_LIMIT
            && -VEL_LIMIT <= vx && vx <= VEL_LIMIT && -VEL_LIMIT <= vy && vy <= VEL_LIMIT
        {
            Some(Particle { px, py, vx, vy })
        } else {
            None
        }
    }
}

/// A square grid of particles, stored row-major as a flat vector of side
/// `side`.  Two such buffers exist in a running system; a parity flag in the
/// orchestrator selects which one is current.
pub struct ParticleBuffer {
    pub side: usize,
    pub particles: Vec<Particle>,
}

impl View for ParticleBuffer {
    type V = Seq<Particle>;

    open spec fn view(&self) -> Seq<Particle> {
        self.particles@
    }
}

impl ParticleBuffer {
    /// Well-formed: a square population of bounded particles.
    pub open spec fn wf(self) -> bool {
        &&& self.side <= MAX_SIDE
        &&& self.particles@.len() == self.side * self.side
        &&& forall|i: int| 0 <= i < self.particles@.len() ==> #[trigger] self.particles@[i].bounded()
    }

    /// Number of particles held.
    pub fn len(&self) -> (n: usize)
        ensures
            n == self@.len(),
    {
        self.particles.len()
    }

    /// The particle at index `i`.
    pub fn get(&self, i: usize) -> (p: Particle)
        requires
            i < self@.len(),
        ensures
            p == self@[i as int],
    {
        self.particles[i]
    }

    /// A zero-filled buffer of side `side`: the initial contents of the
    /// "next" state store, overwritten by the first update pass before any
    /// pass reads it as current.
    pub fn zeroed(side: usize) -> (buf: ParticleBuffer)
        requires
            side <= MAX_SIDE,
        ensures
            buf.wf(),
            buf.side == side,
            buf@.len() == side * side,
            forall|i: int| 0 <= i < buf@.len() ==> (#[trigger] buf@[i]).is_zero(),
    {
        proof {
            assert(side * side <= MAX_SIDE * MAX_SIDE) by (nonlinear_arith)
                requires side <= MAX_SIDE;
        }
        let count: usize = side * side;
        let mut particles: Vec<Particle> = Vec::new();
        let mut i: usize = 0;
        while i < count
            invariant
                i <= count,
                particles@.len() == i,
                forall|j: int| 0 <= j < i ==> (#[trigger] particles@[j]).is_zero(),
            decreases count - i,
        {
            particles.push(Particle::zero());
            i = i + 1;
        }
        ParticleBuffer { side, particles }
    }

    /// A buffer from explicit particles, accepted exactly when the
    /// population is square of side `side` and every particle is bounded.
    pub fn from_particles(side: usize, particles: Vec<Particle>) -> (r: Option<ParticleBuffer>)
        ensures
            r is Some <==> (side <= MAX_SIDE && particles@.len() == side * side
                && (forall|i: int|
                    0 <= i < particles@.len() ==> #[trigger] particles@[i].bounded())),
            r is Some ==> {
                &&& r->Some_0.wf()
                &&& r->Some_0.side == side
                &&& r->Some_0@ == particles@
            },
    {
        if side > MAX_SIDE {
            return None;
        }
        proof {
            assert(side * side <= MAX_SIDE * MAX_SIDE) by (nonlinear_arith)
                requires side <= MAX_SIDE;
        }
        let count: usize = side * side;
        if particles.len() != count {
            return None;
        }
        let mut i: usize = 0;
        while i < count
            invariant
                i <= count,
                particles@.len() == count,
                forall|j: int| 0 <= j < i ==> #[trigger] particles@[j].bounded(),
            decreases count - i,
        {
            let p = particles[i];
            if !(-POS_LIMIT <= p.px && p.px <= POS_LIMIT && -POS_LIMIT <= p.py
                && p.py <= POS_LIMIT && -VEL_LIMIT <= p.vx && p.vx <= VEL_LIMIT
                && -VEL_LIMIT <= p.vy && p.vy <= VEL_LIMIT)
            {
                assert(!particles@[i as int].bounded());
                return None;
            }
            i = i + 1;
        }
        Some(ParticleBuffer { side, particles })
    }
}

/// An affine map of the unit-interval seed value `r` into `[lo, hi)`:
/// `lo + (r * (hi - lo)) / RAND_ONE`, with the division truncated.
pub open spec fn spec_seed_to_range(r: u64, lo: int, hi: int) -> int {
    lo + (r * (hi - lo)) / (RAND_ONE as int)
}

/// Holds of a particle that seeding may produce: position inside the
/// simulation domain, velocity inside the symmetric seeding range.
pub open spec fn in_seed_ranges(p: Particle) -> bool {
    &&& DOMAIN_MIN <= p.px < DOMAIN_MAX
    &&& DOMAIN_MIN <= p.py < DOMAIN_MAX
    &&& -VEL_SEED_LIMIT <= p.vx < VEL_SEED_LIMIT
    &&& -VEL_SEED_LIMIT <= p.vy < VEL_SEED_LIMIT
}

/// The particle that seeding builds from the four seed values at indices
/// `4i .. 4i + 3`: position uniform in the simulation domain, velocity
/// uniform in the symmetric seeding range.
pub open spec fn spec_seeded_particle(seeds: Seq<u64>, i: int) -> Particle {
    Particle {
        px: spec_seed_to_range(seeds[4 * i], DOMAIN_MIN as int, DOMAIN_MAX as int) as i64,
        py: spec_seed_to_range(seeds[4 * i + 1], DOMAIN_MIN as int, DOMAIN_MAX as int) as i64,
        vx: spec_seed_to_range(seeds[4 * i + 2], -VEL_SEED_LIMIT as int, VEL_SEED_LIMIT as int)
            as i64,
        vy: spec_seed_to_range(seeds[4 * i + 3], -VEL_SEED_LIMIT as int, VEL_SEED_LIMIT as int)
            as i64,
    }
}

/// Maps one unit-interval seed value into `[lo, hi)`.
fn seed_to_range(r: u64, lo: i64, hi: i64) -> (v: i64)
    requires
        r < RAND_ONE,
        -SCALE <= lo < hi <= SCALE,
    ensures
        v == spec_seed_to_range(r, lo as int, hi as int),
        lo <= v < hi,
{
    let range: u64 = (hi - lo) as u64;
    proof {
        assert(r * range <= 1_048_576 * 2_000_000) by (nonlinear_arith)
            requires r <= 1_048_576 && range <= 2_000_000;
    }
    let scaled: u64 = (r * range) / RAND_ONE;
    proof {
        assert(r * range < RAND_ONE * range) by (nonlinear_arith)
            requires r < RAND_ONE && range > 0;
        vstd::arithmetic::div_mod::lemma_multiply_divide_lt(
            (r * range) as int,
            RAND_ONE as int,
            range as int,
        );
        vstd::arithmetic::div_mod::lemma_div_pos_is_pos((r * range) as int, RAND_ONE as int);
    }
    lo + (scaled as i64)
}

/// Builds the seeded initial particle population of side `side` from
/// `4 * side * side` unit-interval seed values: for particle `i`, the seed
/// values at `4i .. 4i + 3` give, in order, the two position components
/// (uniform in the domain) and the two velocity components (uniform in the
/// symmetric seeding range).  The result is a pure function of the seed
/// values.
pub fn generate_particles(side: usize, seeds: &Vec<u64>) -> (buf: ParticleBuffer)
    requires
        side <= MAX_SIDE,
        seeds@.len() == 4 * (side * side),
        forall|r: int| 0 <= r < seeds@.len() ==> #[trigger] seeds@[r] < RAND_ONE,
    ensures
        buf.wf(),
        buf.side == side,
        buf@.len() == side * side,
        forall|i: int| 0 <= i < buf@.len() ==> #[trigger] buf@[i] == spec_seeded_particle(seeds@, i),
        forall|i: int| 0 <= i < buf@.len() ==> in_seed_ranges(#[trigger] buf@[i]),
{
    proof {
        assert(side * side <= MAX_SIDE * MAX_SIDE) by (nonlinear_arith)
            requires side <= MAX_SIDE;
    }
    let count: usize = side * side;
    let mut particles: Vec<Particle> = Vec::new();
    let mut i: usize = 0;
    while i < count
        invariant
            i <= count,
            4 * count <= usize::MAX,
            seeds@.len() == 4 * count,
            forall|r: int| 0 <= r < seeds@.len() ==> #[trigger] seeds@[r] < RAND_ONE,
            particles@.len() == i,
            forall|j: int|
                0 <= j < i ==> #[trigger] particles@[j] == spec_seeded_particle(seeds@, j),
            forall|j: int| 0 <= j < i ==> in_seed_ranges(#[trigger] particles@[j]),
        decreases count - i,
    {
        let px = seed_to_range(seeds[4 * i], DOMAIN_MIN, DOMAIN_MAX);
        let py = seed_to_range(seeds[4 * i + 1], DOMAIN_MIN, DOMAIN_MAX);
        let vx = seed_to_range(seeds[4 * i + 2], -VEL_SEED_LIMIT, VEL_SEED_LIMIT);
        let vy = seed_to_range(seeds[4 * i + 3], -VEL_SEED_LIMIT, VEL_SEED_LIMIT);
        particles.push(Particle { px, py, vx, vy });
        i = i + 1;
    }
    let buf = ParticleBuffer { side, particles };
    proof {
        assert forall|j: int| 0 <= j < buf@.len() implies #[trigger] buf@[j].bounded() by {
            assert(buf@[j] == spec_seeded_particle(seeds@, j));
        }
    }
    buf
}

} // verus!
