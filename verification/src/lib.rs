//! A per-frame rigid-body pipeline: component storage, an ordered scheduler,
//! a physics world stepped with semi-implicit Euler integration, and the
//! system that copies body positions into transform components.
//!
//! All quantities are integers. Lengths, times and masses are counted in
//! units that the caller chooses; coefficients are given in thousandths.

pub mod arith;
pub mod vector;
pub mod body;
pub mod motion;
pub mod contact;
pub mod physics;
pub mod laws;
pub mod storage;
pub mod world;
pub mod context;
pub mod systems;
pub mod scheduler;
pub mod scene;
