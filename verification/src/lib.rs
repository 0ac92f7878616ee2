//! A simulation core for a swarm of autonomous exploration robots.
//!
//! The library covers the grid world the robots move on, A* path planning,
//! the per-robot decision engine, and the central station's resource economy
//! and robot provisioning policy.  Rendering, input handling and procedural
//! map generation are left to the surrounding application.

pub mod grid;
pub mod planner;
pub mod robot;
pub mod station;
