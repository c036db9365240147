//! A verified model of a two-dimensional particle simulation.
//!
//! The library keeps a large population of point particles, integrates their
//! motion each frame, and resolves close-range interactions through a spatial
//! binning structure that gives every particle cheap access to the particles
//! sharing its grid cell.  All quantities are fixed-point integers: one world
//! unit is `SCALE` subunits, and velocities are stored in subunits per
//! millisecond, so that integration over a frame time in milliseconds is a
//! plain multiplication.
//!
//! The modules follow the parts of the system:
//! - [`config`]: the fixed simulation constants and the grid configuration;
//! - [`particle`]: the particle record and the double-buffered state store;
//! - [`grid`]: the affine map from simulation space to grid cells;
//! - [`bins`]: the per-cell bin store rebuilt from scratch every frame;
//! - [`update`]: the update stage (integration plus neighbor separation);
//! - [`draw`]: the draw stage's point-size computation;
//! - [`system`]: the frame orchestrator that sequences the three stages.

pub mod bins;
pub mod config;
pub mod draw;
pub mod grid;
pub mod particle;
pub mod system;
pub mod update;
