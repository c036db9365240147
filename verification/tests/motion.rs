use particle_system::bins::BinStore;
use particle_system::config::GridConfig;
use particle_system::particle::{Particle, ParticleBuffer};
use particle_system::update::update_stage;

fn particle(px: i64, py: i64, vx: i64, vy: i64) -> Particle {
    Particle::new(px, py, vx, vy).unwrap()
}

fn buffer_of(side: usize, particles: Vec<Particle>) -> ParticleBuffer {
    ParticleBuffer::from_particles(side, particles).unwrap()
}

fn step(cfg: GridConfig, buf: &ParticleBuffer, dt: u64) -> ParticleBuffer {
    let bins = BinStore::build(cfg, buf);
    update_stage(buf, &bins, dt)
}

#[test]
fn integration_moves_by_velocity_times_elapsed_time() {
    // Velocity is in subunits per millisecond: 16 ms at (100, -40) moves
    // the particle by exactly (1600, -640).
    let cfg = GridConfig::standard();
    let buf = buffer_of(1, vec![particle(12_345, -67_890, 100, -40)]);
    let out = step(cfg, &buf, 16);
    let p = out.get(0);
    assert_eq!((p.px, p.py), (12_345 + 1600, -67_890 - 640));
    assert_eq!((p.vx, p.vy), (100, -40));
}

#[test]
fn zero_velocity_isolated_particle_is_bit_stable() {
    // A particle with zero velocity and no neighbor within the radius
    // keeps its exact position and velocity across any number of frames.
    let cfg = GridConfig::standard();
    let mut buf = buffer_of(1, vec![particle(12_345, -9_876, 0, 0)]);
    for _ in 0..5 {
        buf = step(cfg, &buf, 16);
        let p = buf.get(0);
        assert_eq!((p.px, p.py, p.vx, p.vy), (12_345, -9_876, 0, 0));
    }
}

#[test]
fn close_pair_diverges_symmetrically_far_pair_stays() {
    // Four particles, two per cell, capacity two, dt 16 ms, all with zero
    // velocity: the close pair separates by its offset in both directions,
    // the far pair does not move at all.
    let cfg = GridConfig::new(2, 2, 2).unwrap();
    let buf = buffer_of(
        2,
        vec![
            particle(-500_000, -500_000, 0, 0),
            particle(-499_000, -500_000, 0, 0),
            particle(500_000, 500_000, 0, 0),
            particle(600_000, 500_000, 0, 0),
        ],
    );
    let out = step(cfg, &buf, 16);
    // Offset between the close pair is (1000, 0); 1000^2 < 1447^2, so each
    // member moves away by the full offset.
    assert_eq!((out.get(0).px, out.get(0).py), (-501_000, -500_000));
    assert_eq!((out.get(1).px, out.get(1).py), (-498_000, -500_000));
    // The far pair shares a cell but sits 100_000 subunits apart.
    assert_eq!((out.get(2).px, out.get(2).py), (500_000, 500_000));
    assert_eq!((out.get(3).px, out.get(3).py), (600_000, 500_000));
}

#[test]
fn update_is_deterministic_for_equal_inputs() {
    let cfg = GridConfig::new(8, 8, 4).unwrap();
    let mut particles = Vec::new();
    for i in 0..16 {
        particles.push(particle(
            -900_000 + (i as i64) * 113_333,
            800_000 - (i as i64) * 97_531,
            (i as i64) % 7 - 3,
            (i as i64) % 5 - 2,
        ));
    }
    let buf1 = buffer_of(4, particles.clone());
    let buf2 = buffer_of(4, particles);
    let out1 = step(cfg, &buf1, 33);
    let out2 = step(cfg, &buf2, 33);
    for i in 0..16 {
        assert_eq!(out1.get(i), out2.get(i));
    }
}

#[test]
fn update_examines_only_binned_neighbors() {
    // Capacity one: the second member of a close pair is dropped from the
    // bin store, so only it sees a neighbor.  The seated particle walks
    // its cell, finds itself, and moves nowhere.
    let cfg = GridConfig::new(2, 2, 1).unwrap();
    let buf = buffer_of(
        2,
        vec![
            particle(-500_000, -500_000, 0, 0),
            particle(-499_500, -500_000, 0, 0),
            particle(500_000, 500_000, 0, 0),
            particle(500_000, -500_000, 0, 0),
        ],
    );
    let bins = BinStore::build(cfg, &buf);
    assert_eq!(bins.slot(0, 0, 0), 1);
    let out = update_stage(&buf, &bins, 16);
    // Particle 0 is seated and sees only itself: unchanged.
    assert_eq!((out.get(0).px, out.get(0).py), (-500_000, -500_000));
    // Particle 1 was dropped from the store but still reads it: it sees
    // particle 0 within the radius and moves away by the offset (500, 0).
    assert_eq!((out.get(1).px, out.get(1).py), (-499_000, -500_000));
}

#[test]
fn coincident_particles_have_zero_offset_and_stay() {
    let cfg = GridConfig::new(2, 2, 2).unwrap();
    let buf = buffer_of(
        2,
        vec![
            particle(-500_000, -500_000, 0, 0),
            particle(-500_000, -500_000, 0, 0),
            particle(500_000, 500_000, 0, 0),
            particle(500_000, -500_000, 0, 0),
        ],
    );
    let out = step(cfg, &buf, 16);
    assert_eq!((out.get(0).px, out.get(0).py), (-500_000, -500_000));
    assert_eq!((out.get(1).px, out.get(1).py), (-500_000, -500_000));
}

#[test]
fn radius_boundary_is_strict() {
    // An offset of exactly the radius is not within it: 1447^2 is not
    // less than 1447^2.  An offset one smaller is.
    let cfg = GridConfig::new(1, 1, 2).unwrap();
    let pair_at = |gap: i64| {
        buffer_of(
            2,
            vec![
                particle(-500_000, -500_000, 0, 0),
                particle(-500_000 + gap, -500_000, 0, 0),
                particle(900_000, 900_000, 0, 0),
                particle(900_000, -900_000, 0, 0),
            ],
        )
    };
    let out_at_radius = step(cfg, &pair_at(1447), 16);
    assert_eq!(out_at_radius.get(0).px, -500_000);
    assert_eq!(out_at_radius.get(1).px, -498_553);
    let out_inside = step(cfg, &pair_at(1446), 16);
    assert_eq!(out_inside.get(0).px, -501_446);
    assert_eq!(out_inside.get(1).px, -497_108);
}

#[test]
fn positions_saturate_at_the_far_outside_limit() {
    let cfg = GridConfig::standard();
    let buf = buffer_of(1, vec![particle(999_999_999, -999_999_999, 1_000, -1_000)]);
    let out = step(cfg, &buf, 1_000_000);
    assert_eq!((out.get(0).px, out.get(0).py), (1_000_000_000, -1_000_000_000));
    assert_eq!((out.get(0).vx, out.get(0).vy), (1_000, -1_000));
}

#[test]
fn out_of_domain_particle_only_integrates() {
    let cfg = GridConfig::standard();
    let buf = buffer_of(
        2,
        vec![
            particle(1_200_000, 0, 10, 0),
            particle(1_200_500, 0, 0, 0),
            particle(0, 0, 0, 0),
            particle(500_000, 500_000, 0, 0),
        ],
    );
    let out = step(cfg, &buf, 100);
    // The two left particles are within the radius of one another but lie
    // outside the domain: neither is binned, neither interacts.
    assert_eq!(out.get(0).px, 1_201_000);
    assert_eq!(out.get(1).px, 1_200_500);
}

#[test]
fn particle_new_rejects_out_of_bounds_components() {
    assert!(Particle::new(1_000_000_001, 0, 0, 0).is_none());
    assert!(Particle::new(0, -1_000_000_001, 0, 0).is_none());
    assert!(Particle::new(0, 0, 1_001, 0).is_none());
    assert!(Particle::new(0, 0, 0, -1_001).is_none());
    assert!(Particle::new(1_000_000_000, -1_000_000_000, 1_000, -1_000).is_some());
}

#[test]
fn from_particles_rejects_non_square_populations() {
    let three = vec![Particle::zero(); 3];
    assert!(ParticleBuffer::from_particles(2, three).is_none());
    let four = vec![Particle::zero(); 4];
    assert!(ParticleBuffer::from_particles(2, four).is_some());
}
