//! Bombs: the three kinds and the record kept for each one in flight.

use std::time::Instant;
use vstd::prelude::*;

verus! {

/// The three bombs of the stand.
#[derive(Debug, Clone, Copy, PartialEq, Eq, Structural)]
pub enum BombType {
    /// First bomb: turns what it touches into a bomb.
    Primary,
    /// Second bomb: heat-seeking and autonomous.
    Secondary,
    /// Third bomb: rewinds time.
    Tertiary,
}

/// Something that has been turned into a bomb.
#[derive(Debug, Clone, Copy)]
pub struct Bomb {
    pub bomb_type: BombType,
    pub target_id: u32,
    pub created_at: Instant,
    pub is_active: bool,
    pub power: u32,
}

impl BombType {
    /// The power every bomb of this kind carries.
    pub open spec fn spec_power(self) -> u32 {
        match self {
            BombType::Primary => 100,
            BombType::Secondary => 80,
            BombType::Tertiary => 200,
        }
    }

    /// The power every bomb of this kind carries.
    #[verifier::when_used_as_spec(spec_power)]
    pub fn power(self) -> (p: u32)
        ensures
            p == self.spec_power(),
    {
        match self {
            BombType::Primary => 100,
            BombType::Secondary => 80,
            BombType::Tertiary => 200,
        }
    }
}

impl Bomb {
    /// A live bomb of the given kind on `target_id`, created at `at`.
    pub open spec fn spec_armed(bomb_type: BombType, target_id: u32, at: Instant) -> Bomb {
        Bomb { bomb_type, target_id, created_at: at, is_active: true, power: bomb_type.spec_power() }
    }

    /// A live bomb of the given kind on `target_id`, created at `at`.
    #[verifier::when_used_as_spec(spec_armed)]
    pub fn armed(bomb_type: BombType, target_id: u32, at: Instant) -> (bomb: Bomb)
        ensures
            bomb == Bomb::spec_armed(bomb_type, target_id, at),
    {
        Bomb { bomb_type, target_id, created_at: at, is_active: true, power: bomb_type.power() }
    }
}

} // verus!
