//! A stand with three bomb abilities acting on a roster of targets.
//!
//! The stand places a primary bomb, lets a heat-seeking bomb chase the
//! hottest living target, and can lock one target and rewind time for all
//! the others. Every command is a step from one abstract state to the
//! next, and its contract names that step.

pub mod ability;
pub mod bomb;
pub mod clock;
pub mod error;
pub mod laws;
pub mod registry;
pub mod stand;
pub mod state;
pub mod target;

pub use bomb::{Bomb, BombType};
pub use error::StandError;
pub use stand::{ExplosionResult, QueenKiller, StandStatus, TimeLoopResult};
pub use state::{Command, StandState};
pub use target::{Target, BLAST_RADIUS, FULL_HEALTH};
