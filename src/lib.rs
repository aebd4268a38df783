//! Per-tick arbitration of autonomous vehicles at an unsignalled four-way
//! intersection.
//!
//! Every tick each vehicle gets one of four discrete speeds (stop, slow,
//! medium, fast), decided from a snapshot of all four lane queues: the most
//! conservative of a proximity stage, an intersection-zone stage with a
//! right-of-way cascade, and a context stage. Right-route vehicles rotate
//! their heading once, at the entry edge of the footprint, without a jump in
//! world position. Close encounters are counted once per encounter.
//!
//! Everything is integer: lengths in micrometers, speeds in mm/s, times in
//! ms, so a speed applied for a time gives an exact distance.
//!
//! - [`vehicle`]: vehicles and their kinematics
//! - [`conflict`]: crossing paths, arrival windows, right of way
//! - [`arbitration`]: the per-vehicle speed decision over a snapshot
//! - [`intersection`]: lane queues, the tick, close-call tracking
//! - [`physics`]: speed levels and stateless helpers
//! - [`stats`], [`simulation`]: running statistics and the simulation
//! - [`events`]: spawning on key presses and at random
pub mod vehicle;
pub mod conflict;
pub mod physics;
pub mod arbitration;
pub mod intersection;
pub mod stats;
pub mod simulation;
pub mod events;
