//! What surrounds the three bombs: gestures, timers, the stand's stats and
//! the materials of the world.

pub mod battle_utils;

use crate::bomb::{Bomb, BombType};
use crate::clock::{as_nanos, elapsed, nanos, now};
use std::time::Duration;
use vstd::prelude::*;

verus! {

/// An ability that can be switched on and off.
pub trait StandAbility {
    fn activate(&mut self, target_id: Option<u32>) -> Result<String, String>;

    fn deactivate(&mut self) -> Result<String, String>;

    fn is_active(&self) -> bool;
}

/// Finer work on bombs already in place.
pub trait BombManipulation {
    fn set_bomb_timer(&mut self, target_id: u32, delay_seconds: u64) -> Result<(), String>;

    fn create_chain_explosion(&mut self, epicenter: u32, chain_length: u32) -> Result<
        Vec<u32>,
        String,
    >;

    fn bomb_defusal(&mut self, target_id: u32) -> Result<(), String>;
}

/// The hand gesture that sets off each ability.
#[derive(Debug, Clone, Copy)]
pub enum ActivationGesture {
    /// Detonates the primary bomb.
    ThumbPress,
    /// Releases the heat-seeking bomb.
    FingerSnap,
    /// Arms the third bomb.
    HandClench,
}

/// A bomb that may go off by itself once its timer has run out.
#[derive(Debug, Clone, Copy)]
pub struct TimedBomb {
    pub base_bomb: Bomb,
    pub timer_duration: Option<Duration>,
    pub auto_detonate: bool,
}

impl TimedBomb {
    /// A live bomb without a timer, stamped with the current time.
    pub fn new(bomb_type: BombType, target_id: u32, power: u32) -> (bomb: Self)
        ensures
            bomb.base_bomb.bomb_type == bomb_type,
            bomb.base_bomb.target_id == target_id,
            bomb.base_bomb.is_active,
            bomb.base_bomb.power == power,
            bomb.timer_duration is None,
            !bomb.auto_detonate,
    {
        TimedBomb {
            base_bomb: Bomb { bomb_type, target_id, created_at: now(), is_active: true, power },
            timer_duration: None,
            auto_detonate: false,
        }
    }

    /// The same bomb with a timer of length `duration`, set to go off by
    /// itself.
    pub fn with_timer(self, duration: Duration) -> (bomb: Self)
        ensures
            bomb == (TimedBomb { timer_duration: Some(duration), auto_detonate: true, ..self }),
    {
        let mut bomb = self;
        bomb.timer_duration = Some(duration);
        bomb.auto_detonate = true;
        bomb
    }

    /// Whether the bomb is due once `gone` has passed since it was made:
    /// it has a timer, the timer has run out, and the bomb is set to go
    /// off by itself.
    pub open spec fn spec_is_due_after(&self, gone: Duration) -> bool {
        &&& self.timer_duration matches Some(duration) && nanos(gone) >= nanos(duration)
        &&& self.auto_detonate
    }

    /// Whether the bomb is due once `gone` has passed since it was made.
    #[verifier::when_used_as_spec(spec_is_due_after)]
    pub fn is_due_after(&self, gone: Duration) -> (due: bool)
        ensures
            due == self.spec_is_due_after(gone),
    {
        match self.timer_duration {
            Some(duration) => as_nanos(&gone) >= as_nanos(&duration) && self.auto_detonate,
            None => false,
        }
    }

    /// Whether the bomb is due now. A bomb without a timer, or one not set
    /// to go off by itself, is never due.
    pub fn should_detonate(&self) -> (due: bool)
        ensures
            due ==> self.timer_duration is Some && self.auto_detonate,
            exists|gone: Duration| due == self.spec_is_due_after(gone),
    {
        let gone = elapsed(&self.base_bomb.created_at);
        self.is_due_after(gone)
    }
}

/// The six stats of a stand, each ranked from 1 (E) to 5 (A).
#[derive(Debug, Clone, Copy)]
pub struct StandStats {
    pub destructive_power: u8,
    pub speed: u8,
    pub range: u8,
    pub durability: u8,
    pub precision: u8,
    pub development_potential: u8,
}

impl Default for StandStats {
    /// The stats of this stand: great power and potential, good speed,
    /// durability and precision, short range.
    fn default() -> (stats: Self)
        ensures
            stats == (StandStats {
                destructive_power: 5,
                speed: 4,
                range: 2,
                durability: 4,
                precision: 4,
                development_potential: 5,
            }),
    {
        StandStats {
            destructive_power: 5,
            speed: 4,
            range: 2,
            durability: 4,
            precision: 4,
            development_potential: 5,
        }
    }
}

/// What a thing in the world is made of.
#[derive(Debug, Clone, Copy)]
pub enum MaterialType {
    Organic,
    Metal,
    Plastic,
    Glass,
    Stone,
}

} // verus!
