//! A fixed-point simulation core for a steerable underwater vehicle.
//!
//! The core is driven by a host, once per tick. The host hands it the
//! elapsed time, the commands of that tick and the poses it needs as plain
//! integers, and draws what comes back. Each subsystem owns its own state and
//! reads the others' only through shared borrows:
//!
//! - `ballast`: the tank, the air store, the compressor and the battery;
//! - `kinematics`: thrust, drag, buoyancy and the surface boundary;
//! - `scan`: the sweep and the detection pass of the sonar;
//! - `steering`: the wandering of the mobile entities;
//! - `observer`: the viewpoint that trails the vehicle;
//! - `mission`, `bubbles`, `scene`: the tally, the bubbles, waves and light.
//!
//! `fixed`, `vector`, `trig` and `geometry` hold the arithmetic they share,
//! and `chance` the one source of randomness.
pub mod fixed;
pub mod chance;
pub mod vector;
pub mod trig;
pub mod geometry;
pub mod ballast;
pub mod kinematics;
pub mod scan;
pub mod steering;
pub mod observer;
pub mod mission;
pub mod bubbles;
pub mod scene;
