//! The abstract state of a stand and the transitions between states.
//!
//! Every command of the stand is described here twice over: by the reason
//! for which it is refused, if any, and by the state it leaves behind. A
//! refused command leaves the state as it was.

use crate::bomb::{Bomb, BombType};
use crate::error::StandError;
use crate::target::{within_radius, Target, BLAST_RADIUS};
use std::time::Instant;
use vstd::prelude::*;

verus! {

/// Whether target `id` carries a bomb of kind `kind`.
pub open spec fn carries(bombs: Map<u32, Bomb>, id: u32, kind: BombType) -> bool {
    bombs.contains_key(id) && bombs[id].bomb_type == kind
}

/// Whether a bomb of kind `kind` is in place anywhere.
pub open spec fn holds(bombs: Map<u32, Bomb>, kind: BombType) -> bool {
    exists|id: u32| carries(bombs, id, kind)
}

/// The bombs of kind `kind`, and no others.
pub open spec fn only_kind(bombs: Map<u32, Bomb>, kind: BombType) -> Map<u32, Bomb> {
    Map::new(|id: u32| carries(bombs, id, kind), |id: u32| bombs[id])
}

/// All bombs but those of kind `kind`.
pub open spec fn without_kind(bombs: Map<u32, Bomb>, kind: BombType) -> Map<u32, Bomb> {
    Map::new(|id: u32| bombs.contains_key(id) && bombs[id].bomb_type != kind, |id: u32| bombs[id])
}

/// Whether `id` is registered and alive.
pub open spec fn alive(targets: Map<u32, Target>, id: u32) -> bool {
    targets.contains_key(id) && targets[id].is_alive
}

/// The ids of the living targets.
pub open spec fn living(targets: Map<u32, Target>) -> Set<u32> {
    Set::new(|id: u32| alive(targets, id))
}

/// Whether the heat-seeking bomb prefers `a` to `b`: the hotter target
/// wins, and of two equally hot ones the one with the lower id.
pub open spec fn draws_before(targets: Map<u32, Target>, a: u32, b: u32) -> bool {
    targets[a].temperature > targets[b].temperature || (targets[a].temperature
        == targets[b].temperature && a <= b)
}

/// Whether `id` is the living target that the heat-seeking bomb prefers to
/// every other living target.
pub open spec fn is_hottest(targets: Map<u32, Target>, id: u32) -> bool {
    &&& alive(targets, id)
    &&& forall|other: u32| alive(targets, other) ==> draws_before(targets, id, other)
}

/// The living target that the heat-seeking bomb homes in on, if any target
/// is alive.
pub open spec fn hottest(targets: Map<u32, Target>) -> Option<u32> {
    if exists|id: u32| alive(targets, id) {
        Some(choose|id: u32| is_hottest(targets, id))
    } else {
        None
    }
}

/// Every target but `spared` brought back to full health.
pub open spec fn rewound(targets: Map<u32, Target>, spared: u32) -> Map<u32, Target> {
    Map::new(
        |id: u32| targets.contains_key(id),
        |id: u32|
            if id == spared {
                targets[id]
            } else {
                targets[id].revived()
            },
    )
}

/// What a stand is at one moment: its bombs, the battlefield and the state
/// of its two lasting abilities.
#[verifier::ext_equal]
pub struct StandState {
    pub user_name: Seq<char>,
    pub stand_name: Seq<char>,
    /// The bombs in place, by the id of the target that carries each.
    pub bombs: Map<u32, Bomb>,
    /// The battlefield, by id.
    pub targets: Map<u32, Target>,
    pub max_primary_bombs: nat,
    pub sheer_heart_attack_active: bool,
    pub bites_the_dust_target: Option<u32>,
    pub time_loop_count: nat,
}

impl StandState {
    /// The state of a stand that has not acted yet.
    pub open spec fn fresh(user_name: Seq<char>) -> StandState {
        StandState {
            user_name,
            stand_name: "Queen Killer"@,
            bombs: Map::empty(),
            targets: Map::empty(),
            max_primary_bombs: 1,
            sheer_heart_attack_active: false,
            bites_the_dust_target: None,
            time_loop_count: 0,
        }
    }

    /// Every target is registered under its own id.
    pub open spec fn targets_keyed_by_id(self) -> bool {
        forall|id: u32| #[trigger] self.targets.contains_key(id) ==> self.targets[id].id == id
    }

    /// Every bomb sits on a registered target, is recorded under that
    /// target's id, is live and has the power of its kind.
    pub open spec fn bombs_on_targets(self) -> bool {
        forall|id: u32| #[trigger]
            self.bombs.contains_key(id) ==> {
                &&& self.targets.contains_key(id)
                &&& self.bombs[id].target_id == id
                &&& self.bombs[id].is_active
                &&& self.bombs[id].power == self.bombs[id].bomb_type.spec_power()
            }
    }

    /// No two targets carry a bomb of kind `kind`.
    pub open spec fn at_most_one(self, kind: BombType) -> bool {
        forall|a: u32, b: u32|
            carries(self.bombs, a, kind) && carries(self.bombs, b, kind) ==> a == b
    }

    /// While a heat-seeking bomb is in place, the ability counts as active.
    pub open spec fn heat_seeking_flagged(self) -> bool {
        holds(self.bombs, BombType::Secondary) ==> self.sheer_heart_attack_active
    }

    /// The ability counts as active exactly while a heat-seeking bomb is in
    /// place.
    pub open spec fn heat_seeking_consistent(self) -> bool {
        holds(self.bombs, BombType::Secondary) <==> self.sheer_heart_attack_active
    }

    /// The locked target is registered, and only it can carry the third
    /// bomb.
    pub open spec fn lock_respected(self) -> bool {
        &&& self.bites_the_dust_target matches Some(locked) ==> self.targets.contains_key(locked)
        &&& forall|id: u32|
            carries(self.bombs, id, BombType::Tertiary) ==> self.bites_the_dust_target == Some(id)
    }

    /// What holds of a stand between any two commands.
    pub open spec fn well_formed(self) -> bool {
        &&& self.bombs.dom().finite()
        &&& self.targets.dom().finite()
        &&& self.max_primary_bombs == 1
        &&& self.targets_keyed_by_id()
        &&& self.bombs_on_targets()
        &&& self.at_most_one(BombType::Primary)
        &&& self.at_most_one(BombType::Secondary)
        &&& self.heat_seeking_flagged()
        &&& self.lock_respected()
    }

    /// Every target is alive exactly when it has health left.
    pub open spec fn targets_consistent(self) -> bool {
        forall|id: u32| #[trigger] self.targets.contains_key(id) ==> self.targets[id].consistent()
    }

    /// The state once `target` has entered the battlefield, in place of any
    /// target that had its id.
    pub open spec fn after_add_target(self, target: Target) -> StandState {
        StandState { targets: self.targets.insert(target.id, target), ..self }
    }

    /// Why a primary bomb cannot be placed on `id`, if it cannot.
    pub open spec fn place_primary_bomb_refusal(self, id: u32) -> Option<StandError> {
        if holds(self.bombs, BombType::Primary) {
            Some(StandError::EffectConflict)
        } else if !self.targets.contains_key(id) {
            Some(StandError::NotFound)
        } else {
            None
        }
    }

    /// The state after an attempt at time `at` to place a primary bomb on
    /// `id`.
    pub open spec fn after_place_primary_bomb(self, id: u32, at: Instant) -> StandState {
        if self.place_primary_bomb_refusal(id) is None {
            StandState {
                bombs: self.bombs.insert(id, Bomb::spec_armed(BombType::Primary, id, at)),
                ..self
            }
        } else {
            self
        }
    }

    /// Why the bomb on `id` cannot be detonated, if it cannot.
    pub open spec fn detonate_bomb_refusal(self, id: u32) -> Option<StandError> {
        if self.bombs.contains_key(id) {
            None
        } else {
            Some(StandError::NoEffect)
        }
    }

    /// The state after an attempt to detonate the bomb on `id`: the bomb is
    /// gone and its carrier destroyed. No other target is harmed.
    pub open spec fn after_detonate_bomb(self, id: u32) -> StandState {
        if self.detonate_bomb_refusal(id) is None {
            StandState {
                bombs: self.bombs.remove(id),
                targets: self.targets.insert(id, self.targets[id].destroyed()),
                ..self
            }
        } else {
            self
        }
    }

    /// The living targets other than `id` that stand within the blast of a
    /// bomb going off on `id`.
    pub open spec fn caught_in_blast(self, id: u32) -> Set<u32> {
        Set::new(
            |other: u32|
                other != id && alive(self.targets, other) && within_radius(
                    self.targets[other].position,
                    self.targets[id].position,
                    BLAST_RADIUS,
                ),
        )
    }

    /// Why the heat-seeking bomb cannot be released, if it cannot.
    pub open spec fn activate_sheer_heart_attack_refusal(self) -> Option<StandError> {
        if self.sheer_heart_attack_active {
            Some(StandError::AlreadyActive)
        } else if hottest(self.targets) is None {
            Some(StandError::NoValidTargets)
        } else {
            None
        }
    }

    /// The state after an attempt at time `at` to release the heat-seeking
    /// bomb: it sits on the hottest living target.
    pub open spec fn after_activate_sheer_heart_attack(self, at: Instant) -> StandState {
        if self.activate_sheer_heart_attack_refusal() is None {
            let id = hottest(self.targets)->0;
            StandState {
                bombs: self.bombs.insert(id, Bomb::spec_armed(BombType::Secondary, id, at)),
                sheer_heart_attack_active: true,
                ..self
            }
        } else {
            self
        }
    }

    /// Whether the heat-seeking bomb sits on a living target.
    pub open spec fn chasing(self) -> bool {
        exists|id: u32| carries(self.bombs, id, BombType::Secondary) && alive(self.targets, id)
    }

    /// The state after the heat-seeking bomb has looked around at time
    /// `at`. While its target lives it stays; otherwise it moves to the
    /// hottest living target, and stops for good when nothing is alive.
    pub open spec fn after_update_sheer_heart_attack(self, at: Instant) -> StandState {
        if !self.sheer_heart_attack_active || self.chasing() {
            self
        } else {
            match hottest(self.targets) {
                Some(id) => StandState {
                    bombs: without_kind(self.bombs, BombType::Secondary).insert(
                        id,
                        Bomb::spec_armed(BombType::Secondary, id, at),
                    ),
                    ..self
                },
                None => StandState {
                    bombs: without_kind(self.bombs, BombType::Secondary),
                    sheer_heart_attack_active: false,
                    ..self
                },
            }
        }
    }

    /// Why the third bomb cannot be locked onto `id`, if it cannot.
    pub open spec fn activate_bites_the_dust_refusal(self, id: u32) -> Option<StandError> {
        if self.bites_the_dust_target is Some {
            Some(StandError::AlreadyActive)
        } else if !self.targets.contains_key(id) {
            Some(StandError::NotFound)
        } else {
            None
        }
    }

    /// The state after an attempt at time `at` to lock the third bomb onto
    /// `id`.
    pub open spec fn after_activate_bites_the_dust(self, id: u32, at: Instant) -> StandState {
        if self.activate_bites_the_dust_refusal(id) is None {
            StandState {
                bombs: self.bombs.insert(id, Bomb::spec_armed(BombType::Tertiary, id, at)),
                bites_the_dust_target: Some(id),
                ..self
            }
        } else {
            self
        }
    }

    /// Why time cannot be rewound, if it cannot.
    pub open spec fn trigger_time_loop_refusal(self) -> Option<StandError> {
        if self.bites_the_dust_target is None {
            Some(StandError::NotActive)
        } else {
            None
        }
    }

    /// The targets that a rewind brings back: all but the locked one.
    pub open spec fn rewind_set(self) -> Set<u32> {
        match self.bites_the_dust_target {
            Some(locked) => self.targets.dom().remove(locked),
            None => Set::empty(),
        }
    }

    /// The state after an attempt to rewind time: one more loop is counted,
    /// every target but the locked one is back at full health, only the
    /// third bomb is left in place and the heat-seeking bomb has stopped.
    /// The lock itself stays.
    pub open spec fn after_trigger_time_loop(self) -> StandState {
        match self.bites_the_dust_target {
            Some(locked) => StandState {
                bombs: only_kind(self.bombs, BombType::Tertiary),
                targets: rewound(self.targets, locked),
                sheer_heart_attack_active: false,
                time_loop_count: self.time_loop_count + 1,
                ..self
            },
            None => self,
        }
    }
}

/// A command given to a stand, with the time at which it is given where
/// the command stamps a bomb.
pub enum Command {
    AddTarget(Target),
    PlacePrimaryBomb(u32, Instant),
    DetonateBomb(u32),
    ActivateSheerHeartAttack(Instant),
    UpdateSheerHeartAttack(Instant),
    ActivateBitesTheDust(u32, Instant),
    TriggerTimeLoop,
}

impl StandState {
    /// The state after `command`, whether it was carried out or refused.
    pub open spec fn after(self, command: Command) -> StandState {
        match command {
            Command::AddTarget(target) => self.after_add_target(target),
            Command::PlacePrimaryBomb(id, at) => self.after_place_primary_bomb(id, at),
            Command::DetonateBomb(id) => self.after_detonate_bomb(id),
            Command::ActivateSheerHeartAttack(at) => self.after_activate_sheer_heart_attack(at),
            Command::UpdateSheerHeartAttack(at) => self.after_update_sheer_heart_attack(at),
            Command::ActivateBitesTheDust(id, at) => self.after_activate_bites_the_dust(id, at),
            Command::TriggerTimeLoop => self.after_trigger_time_loop(),
        }
    }

    /// The state after all of `commands`, given one after the other.
    pub open spec fn after_all(self, commands: Seq<Command>) -> StandState
        decreases commands.len(),
    {
        if commands.len() == 0 {
            self
        } else {
            self.after_all(commands.drop_last()).after(commands.last())
        }
    }
}

} // verus!
