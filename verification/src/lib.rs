//! Verified core of a top-down arena game: the combat and spawning
//! simulation loop. The crate holds the health/damage/reward model, the
//! timed minion-spawner state machine, nearest-enemy targeting and
//! movement, collision-driven combat resolution, the camera-follow
//! controller, and the lifecycle rules that cull dead, expired or
//! out-of-bounds entities.
//!
//! The engine around it — entity storage, rendering, input, audio and the
//! physics engine that detects overlaps — is a collaborator: it hands this
//! crate plain values (positions, teams, elapsed milliseconds, collision
//! start/stop events) and applies the decisions that come back.

pub mod camera;
pub mod castles;
pub mod common;
pub mod health;
pub mod minions;
pub mod pause;
pub mod physics;
pub mod player;
pub mod racks;
pub mod rng;
pub mod states;
pub mod teams;
pub mod timer;
