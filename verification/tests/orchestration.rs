use particle_system::config::GridConfig;
use particle_system::draw::point_size;
use particle_system::particle::{generate_particles, Particle, ParticleBuffer};
use particle_system::system::System;

fn particle(px: i64, py: i64, vx: i64, vy: i64) -> Particle {
    Particle::new(px, py, vx, vy).unwrap()
}

fn buffer_of(side: usize, particles: Vec<Particle>) -> ParticleBuffer {
    ParticleBuffer::from_particles(side, particles).unwrap()
}

#[test]
fn point_size_formula() {
    // radius / min(1 / w, 1 / h) == radius * max(w, h), in subunit-pixels.
    assert_eq!(point_size(800, 600), 1447 * 800);
    assert_eq!(point_size(600, 800), 1447 * 800);
    assert_eq!(point_size(1, 1), 1447);
}

#[test]
fn resize_halves_point_size_and_leaves_simulation_untouched() {
    // Surface resized from 800 x 600 to 400 x 300 mid-run: min(1/w, 1/h)
    // doubles, so the computed point size — the radius divided by it —
    // halves, and nothing of the simulation state changes.
    let cfg = GridConfig::new(2, 2, 2).unwrap();
    let seeded = buffer_of(
        2,
        vec![
            particle(-500_000, -500_000, 3, 4),
            particle(500_000, -500_000, 0, 0),
            particle(-500_000, 500_000, -5, 0),
            particle(500_000, 500_000, 0, 0),
        ],
    );
    let mut sys = System::initialize(cfg, seeded, 800, 600);
    sys.frame(16);
    let before: Vec<Particle> = (0..4).map(|i| sys.current_buffer().get(i)).collect();
    let ps_before = sys.point_size();
    sys.on_resize(400, 300);
    let ps_after = sys.point_size();
    assert_eq!(ps_before, 1447 * 800);
    assert_eq!(ps_after, 1447 * 400);
    assert_eq!(ps_before, 2 * ps_after);
    assert_eq!(sys.population(), 4);
    for i in 0..4 {
        assert_eq!(sys.current_buffer().get(i), before[i]);
    }
    // The next frame draws with the new dimensions.
    let ps_frame = sys.frame(16);
    assert_eq!(ps_frame, 1447 * 400);
}

#[test]
fn frame_reports_the_pre_frame_point_size() {
    let cfg = GridConfig::new(2, 2, 2).unwrap();
    let seeded = ParticleBuffer::zeroed(0);
    let mut sys = System::initialize(cfg, seeded, 1024, 768);
    assert_eq!(sys.frame(16), 1447 * 1024);
}

#[test]
fn end_to_end_close_pair_diverges_far_pair_stays() {
    // The full frame cycle on four particles at cell-distinct positions of
    // their pairs, capacity two, dt 16 ms, zero velocities: one close pair
    // diverges symmetrically, one far pair is bit-stable.
    let cfg = GridConfig::new(2, 2, 2).unwrap();
    let seeded = buffer_of(
        2,
        vec![
            particle(-500_000, -500_000, 0, 0),
            particle(-499_000, -500_000, 0, 0),
            particle(500_000, 500_000, 0, 0),
            particle(600_000, 500_000, 0, 0),
        ],
    );
    let mut sys = System::initialize(cfg, seeded, 800, 600);
    sys.frame(16);
    let cur = sys.current_buffer();
    assert_eq!((cur.get(0).px, cur.get(0).py), (-501_000, -500_000));
    assert_eq!((cur.get(1).px, cur.get(1).py), (-498_000, -500_000));
    assert_eq!((cur.get(2).px, cur.get(2).py), (500_000, 500_000));
    assert_eq!((cur.get(3).px, cur.get(3).py), (600_000, 500_000));
    // The pair keeps diverging the following frame (now 3000 apart on x:
    // farther than the radius, so it stops there).
    sys.frame(16);
    let cur = sys.current_buffer();
    assert_eq!(cur.get(0).px, -501_000);
    assert_eq!(cur.get(1).px, -498_000);
}

#[test]
fn frame_flips_parity_and_preserves_the_read_buffer() {
    let cfg = GridConfig::new(2, 2, 2).unwrap();
    let seeded = buffer_of(
        2,
        vec![
            particle(-500_000, -500_000, 10, 0),
            particle(500_000, -500_000, 0, 10),
            particle(-500_000, 500_000, -10, 0),
            particle(500_000, 500_000, 0, -10),
        ],
    );
    let mut sys = System::initialize(cfg, seeded, 800, 600);
    assert!(!sys.parity);
    // The untouched write target starts zeroed.
    for i in 0..4 {
        assert_eq!(sys.buf_b.get(i), Particle::zero());
    }
    sys.frame(100);
    assert!(sys.parity);
    // The buffer that was read keeps its contents; the written buffer is
    // now current and holds the integrated positions.
    assert_eq!(sys.buf_a.get(0).px, -500_000);
    assert_eq!(sys.current_buffer().get(0).px, -499_000);
    assert_eq!(sys.current_buffer().get(1).py, -499_000);
    sys.frame(100);
    assert!(!sys.parity);
    assert_eq!(sys.current_buffer().get(0).px, -498_000);
}

#[test]
fn frames_are_deterministic_for_equal_inputs() {
    let cfg = GridConfig::new(4, 4, 2).unwrap();
    let mut particles = Vec::new();
    for i in 0..16 {
        particles.push(particle(
            -900_000 + (i as i64) * 119_999,
            -800_000 + (i as i64) * 101_010,
            (i as i64) % 9 - 4,
            (i as i64) % 3 - 1,
        ));
    }
    let mut sys1 = System::initialize(cfg, buffer_of(4, particles.clone()), 800, 600);
    let mut sys2 = System::initialize(cfg, buffer_of(4, particles), 800, 600);
    for _ in 0..3 {
        sys1.frame(17);
        sys2.frame(17);
    }
    for i in 0..16 {
        assert_eq!(sys1.current_buffer().get(i), sys2.current_buffer().get(i));
    }
}

#[test]
fn generate_particles_maps_seed_values_affinely() {
    // Seed 0 gives the range minimum; 2^19 (half of 2^20) the midpoint;
    // 2^20 - 1 the last representable value below the maximum.
    let seeds: Vec<u64> = vec![0, 524_288, 1_048_575, 0];
    let buf = generate_particles(1, &seeds);
    let p = buf.get(0);
    assert_eq!(p.px, -1_000_000);
    assert_eq!(p.py, 0);
    assert_eq!(p.vx, 99);
    assert_eq!(p.vy, -100);
}

#[test]
fn generate_particles_stays_inside_the_seeding_ranges() {
    let mut seeds: Vec<u64> = Vec::new();
    for i in 0..(4 * 9) {
        seeds.push((i as u64 * 131_071) % 1_048_576);
    }
    let buf = generate_particles(3, &seeds);
    assert_eq!(buf.len(), 9);
    for i in 0..9 {
        let p = buf.get(i);
        assert!(-1_000_000 <= p.px && p.px < 1_000_000);
        assert!(-1_000_000 <= p.py && p.py < 1_000_000);
        assert!(-100 <= p.vx && p.vx < 100);
        assert!(-100 <= p.vy && p.vy < 100);
    }
}

#[test]
fn bootstrap_builds_a_running_system_from_seed_values() {
    let mut seeds: Vec<u64> = Vec::new();
    for i in 0..(4 * 4) {
        seeds.push((i as u64 * 77_777) % 1_048_576);
    }
    let mut sys = System::bootstrap(GridConfig::standard(), 2, &seeds, 1280, 720);
    assert_eq!(sys.population(), 4);
    assert!(!sys.parity);
    assert_eq!(sys.point_size(), 1447 * 1280);
    sys.frame(16);
    assert_eq!(sys.population(), 4);
    assert!(sys.parity);
}
