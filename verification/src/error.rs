//! Why the stand refuses a command.

use vstd::prelude::*;

verus! {

/// The ways a command can fail. A failed command changes nothing.
#[derive(Debug, Clone, Copy, PartialEq, Eq, Structural)]
pub enum StandError {
    /// The target named by the command is not on the battlefield.
    NotFound,
    /// A primary bomb is already in place somewhere.
    EffectConflict,
    /// The target carries no bomb.
    NoEffect,
    /// The ability is already running.
    AlreadyActive,
    /// No target is alive to be chased.
    NoValidTargets,
    /// The ability was triggered before it was activated.
    NotActive,
}

} // verus!
