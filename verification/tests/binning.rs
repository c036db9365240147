use particle_system::bins::BinStore;
use particle_system::config::GridConfig;
use particle_system::grid::{cell_index_of, cell_of};
use particle_system::particle::{Particle, ParticleBuffer};

fn particle_at(px: i64, py: i64) -> Particle {
    Particle::new(px, py, 0, 0).unwrap()
}

fn buffer_of(side: usize, particles: Vec<Particle>) -> ParticleBuffer {
    ParticleBuffer::from_particles(side, particles).unwrap()
}

#[test]
fn cell_of_domain_corners() {
    let cfg = GridConfig::standard();
    assert_eq!(cell_of(cfg, -1_000_000, -1_000_000), Some((0, 0)));
    assert_eq!(cell_of(cfg, 999_999, 999_999), Some((127, 127)));
    assert_eq!(cell_of(cfg, 0, 0), Some((64, 64)));
}

#[test]
fn cell_of_rejects_positions_outside_domain() {
    let cfg = GridConfig::standard();
    assert_eq!(cell_of(cfg, 1_000_000, 0), None);
    assert_eq!(cell_of(cfg, 0, 1_000_000), None);
    assert_eq!(cell_of(cfg, -1_000_001, 0), None);
    assert_eq!(cell_of(cfg, 0, 2_000_000), None);
}

#[test]
fn cell_of_agrees_between_stages() {
    // The partitioning and update stages share one map: the linear index
    // is row * columns + column for every in-domain position.
    let cfg = GridConfig::new(4, 4, 2).unwrap();
    let p = particle_at(-300_000, 700_000);
    let (col, row) = cell_of(cfg, p.px, p.py).unwrap();
    assert_eq!(cell_index_of(cfg, &p), Some(row * 4 + col));
    assert_eq!((col, row), (1, 3));
}

#[test]
fn build_places_cell_distinct_particles_alone() {
    let cfg = GridConfig::new(2, 2, 2).unwrap();
    let buf = buffer_of(
        2,
        vec![
            particle_at(-500_000, -500_000),
            particle_at(500_000, -500_000),
            particle_at(-500_000, 500_000),
            particle_at(500_000, 500_000),
        ],
    );
    let bins = BinStore::build(cfg, &buf);
    // Each particle sits in slot 0 of its own cell, stored as index + 1.
    assert_eq!(bins.slot(0, 0, 0), 1);
    assert_eq!(bins.slot(1, 0, 0), 2);
    assert_eq!(bins.slot(0, 1, 0), 3);
    assert_eq!(bins.slot(1, 1, 0), 4);
    // The second slot of every cell keeps the empty sentinel.
    for col in 0..2 {
        for row in 0..2 {
            assert_eq!(bins.slot(col, row, 1), 0);
        }
    }
    assert_eq!(bins.count_refs(), 4);
}

#[test]
fn build_tie_break_gives_lowest_index_the_earliest_slot() {
    let cfg = GridConfig::new(2, 2, 2).unwrap();
    let buf = buffer_of(
        2,
        vec![
            particle_at(-500_000, -500_000),
            particle_at(-400_000, -500_000),
            particle_at(-300_000, -500_000),
            particle_at(-200_000, -500_000),
        ],
    );
    let bins = BinStore::build(cfg, &buf);
    // All four compete for cell (0, 0); the two lowest indices win its two
    // slots in order, the excess is dropped for this frame.
    assert_eq!(bins.slot(0, 0, 0), 1);
    assert_eq!(bins.slot(0, 0, 1), 2);
    assert_eq!(bins.count_refs(), 2);
}

#[test]
fn build_conserves_count_when_spread() {
    // Sixteen particles in sixteen distinct cells: every one is seated.
    let cfg = GridConfig::new(4, 4, 2).unwrap();
    let mut particles = Vec::new();
    for row in 0..4 {
        for col in 0..4 {
            particles.push(particle_at(-750_000 + col * 500_000, -750_000 + row * 500_000));
        }
    }
    let buf = buffer_of(4, particles);
    let bins = BinStore::build(cfg, &buf);
    assert_eq!(bins.count_refs(), 16);
}

#[test]
fn build_drops_exactly_the_overflow_under_clustering() {
    // Sixteen particles in one cell of capacity two: fourteen are dropped.
    let cfg = GridConfig::new(4, 4, 2).unwrap();
    let particles = vec![particle_at(-750_000, -750_000); 16];
    let buf = buffer_of(4, particles);
    let bins = BinStore::build(cfg, &buf);
    assert_eq!(bins.count_refs(), 2);
    assert_eq!(bins.slot(0, 0, 0), 1);
    assert_eq!(bins.slot(0, 0, 1), 2);
}

#[test]
fn build_skips_particles_outside_domain() {
    let cfg = GridConfig::new(2, 2, 2).unwrap();
    let buf = buffer_of(
        2,
        vec![
            particle_at(1_500_000, 0),
            particle_at(0, -1_000_001),
            particle_at(1_000_000, 0),
            particle_at(-500_000, -500_000),
        ],
    );
    let bins = BinStore::build(cfg, &buf);
    // Only the last particle lies inside the domain.
    assert_eq!(bins.count_refs(), 1);
    assert_eq!(bins.slot(0, 0, 0), 4);
}

#[test]
fn build_no_duplication_across_slots() {
    let cfg = GridConfig::new(2, 2, 4).unwrap();
    let mut particles = Vec::new();
    for i in 0..9 {
        // Spread over the four cells with repetition, all in-domain.
        let col = (i % 2) as i64;
        let row = ((i / 2) % 2) as i64;
        particles.push(particle_at(
            -500_000 + col * 1_000_000 + (i as i64) * 7,
            -500_000 + row * 1_000_000,
        ));
    }
    particles.push(particle_at(1_500_000, 0));
    particles.resize(16, particle_at(2_000_000, 2_000_000));
    let buf = buffer_of(4, particles);
    let bins = BinStore::build(cfg, &buf);
    let mut seen = Vec::new();
    for col in 0..2 {
        for row in 0..2 {
            for k in 0..4 {
                let v = bins.slot(col, row, k);
                if v != 0 {
                    assert!(!seen.contains(&v), "particle referenced twice");
                    seen.push(v);
                }
            }
        }
    }
    assert_eq!(seen.len(), bins.count_refs());
    assert_eq!(bins.count_refs(), 9);
}

#[test]
fn build_cell_correctness_for_every_occupied_slot() {
    let cfg = GridConfig::new(4, 4, 2).unwrap();
    let mut particles = Vec::new();
    for i in 0..16 {
        let x = -900_000 + (i as i64) * 117_000;
        let y = 900_000 - (i as i64) * 93_000;
        particles.push(particle_at(x, y));
    }
    let buf = buffer_of(4, particles);
    let bins = BinStore::build(cfg, &buf);
    for col in 0..4 {
        for row in 0..4 {
            for k in 0..2 {
                let v = bins.slot(col, row, k);
                if v != 0 {
                    let p = buf.get((v - 1) as usize);
                    assert_eq!(cell_of(cfg, p.px, p.py), Some((col, row)));
                }
            }
        }
    }
}

#[test]
fn empty_store_holds_only_sentinels() {
    let cfg = GridConfig::new(3, 3, 2).unwrap();
    let bins = BinStore::empty(cfg);
    for col in 0..3 {
        for row in 0..3 {
            for k in 0..2 {
                assert_eq!(bins.slot(col, row, k), 0);
            }
        }
    }
    assert_eq!(bins.count_refs(), 0);
}

#[test]
fn build_of_empty_population() {
    let cfg = GridConfig::standard();
    let buf = ParticleBuffer::zeroed(0);
    let bins = BinStore::build(cfg, &buf);
    assert_eq!(bins.count_refs(), 0);
}

#[test]
fn grid_config_rejects_out_of_range_values() {
    assert!(GridConfig::new(0, 4, 2).is_none());
    assert!(GridConfig::new(4, 0, 2).is_none());
    assert!(GridConfig::new(4, 4, 0).is_none());
    assert!(GridConfig::new(1025, 4, 2).is_none());
    assert!(GridConfig::new(4, 1025, 2).is_none());
    assert!(GridConfig::new(4, 4, 65).is_none());
    assert!(GridConfig::new(1024, 1024, 64).is_some());
}
