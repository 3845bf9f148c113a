//! The stand itself: the commands it takes and what each one answers.
//!
//! Each command that stamps a bomb comes in two forms. The form whose name
//! ends in `_at` takes the time as an argument and says exactly what state
//! it leaves behind. The plain form reads the clock and behaves as the
//! other form does for the reading it got.

use crate::bomb::{Bomb, BombType};
use crate::clock::now;
use crate::error::StandError;
use crate::laws::{
    lemma_activate_bites_the_dust_keeps_well_formed,
    lemma_activate_sheer_heart_attack_keeps_well_formed, lemma_add_target_keeps_well_formed,
    lemma_detonate_bomb_keeps_well_formed, lemma_place_primary_bomb_keeps_well_formed,
    lemma_trigger_time_loop_keeps_well_formed, lemma_update_sheer_heart_attack_keeps_well_formed,
};
use crate::registry::{
    find_kind, hottest_alive, ids_except, living_ids, living_ids_within, revive_all_but, sift_kind,
};
use crate::state::{alive, carries, living, StandState};
use crate::target::{within_radius, Target, BLAST_RADIUS};
use std::collections::HashMap;
use std::time::Instant;
use vstd::prelude::*;
use vstd::string::StringExecFns;

verus! {

broadcast use vstd::std_specs::hash::group_hash_axioms;

/// What an explosion did.
#[derive(Debug)]
pub struct ExplosionResult {
    pub target_id: u32,
    pub damage_dealt: u32,
    pub explosion_radius: i32,
    /// The living bystanders within reach of the blast. They are reported,
    /// not harmed.
    pub affected_targets: Vec<u32>,
}

/// What a rewind of time did.
#[derive(Debug)]
pub struct TimeLoopResult {
    pub loop_number: u32,
    pub reset_targets: Vec<u32>,
    pub timestamp: Instant,
}

/// Where the stand is at.
#[derive(Debug)]
pub struct StandStatus {
    pub active_bomb_count: usize,
    pub sheer_heart_attack_active: bool,
    pub bites_the_dust_active: bool,
    pub time_loop_count: u32,
    pub alive_targets: usize,
}

/// The stand. It alone owns its bombs and its battlefield: they change
/// through its commands and in no other way.
#[derive(Debug)]
pub struct QueenKiller {
    user_name: String,
    stand_name: String,
    active_bombs: HashMap<u32, Bomb>,
    targets: HashMap<u32, Target>,
    max_primary_bombs: usize,
    sheer_heart_attack_active: bool,
    bites_the_dust_target: Option<u32>,
    time_loop_count: u32,
}

impl View for QueenKiller {
    type V = StandState;

    closed spec fn view(&self) -> StandState {
        StandState {
            user_name: self.user_name@,
            stand_name: self.stand_name@,
            bombs: self.active_bombs@,
            targets: self.targets@,
            max_primary_bombs: self.max_primary_bombs as nat,
            sheer_heart_attack_active: self.sheer_heart_attack_active,
            bites_the_dust_target: self.bites_the_dust_target,
            time_loop_count: self.time_loop_count as nat,
        }
    }
}

impl QueenKiller {
    /// A stand for `user_name` that has not acted yet.
    pub fn new(user_name: String) -> (stand: Self)
        ensures
            stand@ == StandState::fresh(user_name@),
            stand@.well_formed(),
    {
        let stand = QueenKiller {
            user_name,
            stand_name: String::from_str("Queen Killer"),
            active_bombs: HashMap::new(),
            targets: HashMap::new(),
            max_primary_bombs: 1,
            sheer_heart_attack_active: false,
            bites_the_dust_target: None,
            time_loop_count: 0,
        };
        assert(stand@ =~= StandState::fresh(user_name@));
        stand
    }

    /// Registers `target` under its id, in place of any target that had
    /// that id.
    pub fn add_target(&mut self, target: Target)
        requires
            old(self)@.well_formed(),
        ensures
            final(self)@ == old(self)@.after_add_target(target),
            final(self)@.well_formed(),
    {
        proof {
            lemma_add_target_keeps_well_formed(self@, target);
        }
        self.targets.insert(target.id, target);
        assert(self@ =~= old(self)@.after_add_target(target));
    }

    /// The target registered under `id`, or `NotFound`.
    pub fn lookup(&self, id: u32) -> (found: Result<&Target, StandError>)
        ensures
            match found {
                Ok(target) => self@.targets.contains_key(id) && *target == self@.targets[id],
                Err(why) => !self@.targets.contains_key(id) && why == StandError::NotFound,
            },
    {
        match self.targets.get(&id) {
            Some(target) => Ok(target),
            None => Err(StandError::NotFound),
        }
    }

    /// The ids of the living targets, each exactly once, in no particular
    /// order.
    pub fn all_alive(&self) -> (ids: Vec<u32>)
        ensures
            ids@.no_duplicates(),
            ids@.to_set() == living(self@.targets),
    {
        living_ids(&self.targets)
    }

    /// Places the primary bomb on `target_id` at time `at`. Refused with
    /// `EffectConflict` while a primary bomb is in place anywhere, and with
    /// `NotFound` when `target_id` is not registered.
    pub fn place_primary_bomb_at(&mut self, target_id: u32, at: Instant) -> (done: Result<
        (),
        StandError,
    >)
        requires
            old(self)@.well_formed(),
        ensures
            final(self)@ == old(self)@.after_place_primary_bomb(target_id, at),
            final(self)@.well_formed(),
            match done {
                Ok(()) => old(self)@.place_primary_bomb_refusal(target_id) is None,
                Err(why) => old(self)@.place_primary_bomb_refusal(target_id) == Some(why),
            },
    {
        proof {
            lemma_place_primary_bomb_keeps_well_formed(self@, target_id, at);
        }
        if find_kind(&self.active_bombs, BombType::Primary).is_some() {
            return Err(StandError::EffectConflict);
        }
        if !self.targets.contains_key(&target_id) {
            return Err(StandError::NotFound);
        }
        self.active_bombs.insert(target_id, Bomb::armed(BombType::Primary, target_id, at));
        assert(self@ =~= old(self)@.after_place_primary_bomb(target_id, at));
        Ok(())
    }

    /// Places the primary bomb on `target_id` now.
    pub fn place_primary_bomb(&mut self, target_id: u32) -> (done: Result<(), StandError>)
        requires
            old(self)@.well_formed(),
        ensures
            exists|at: Instant|
                final(self)@ == old(self)@.after_place_primary_bomb(target_id, at),
            final(self)@.well_formed(),
            match done {
                Ok(()) => old(self)@.place_primary_bomb_refusal(target_id) is None,
                Err(why) => old(self)@.place_primary_bomb_refusal(target_id) == Some(why),
            },
    {
        let at = now();
        self.place_primary_bomb_at(target_id, at)
    }

    /// Sets off the bomb on `target_id`, whatever its kind. Refused with
    /// `NoEffect` when the target carries no bomb. Otherwise the bomb is
    /// gone and its carrier destroyed; the answer names the bomb's power
    /// as the damage, the reach of the blast, and the living bystanders
    /// within that reach, who are not harmed.
    pub fn detonate_bomb(&mut self, target_id: u32) -> (done: Result<ExplosionResult, StandError>)
        requires
            old(self)@.well_formed(),
        ensures
            final(self)@ == old(self)@.after_detonate_bomb(target_id),
            final(self)@.well_formed(),
            match done {
                Ok(blast) => {
                    &&& old(self)@.detonate_bomb_refusal(target_id) is None
                    &&& blast.target_id == target_id
                    &&& blast.damage_dealt == old(self)@.bombs[target_id].power
                    &&& blast.explosion_radius == BLAST_RADIUS
                    &&& blast.affected_targets@.no_duplicates()
                    &&& blast.affected_targets@.to_set() == old(self)@.caught_in_blast(target_id)
                },
                Err(why) => old(self)@.detonate_bomb_refusal(target_id) == Some(why),
            },
    {
        proof {
            lemma_detonate_bomb_keeps_well_formed(self@, target_id);
        }
        let bomb = match self.active_bombs.remove(&target_id) {
            Some(bomb) => bomb,
            None => {
                assert(self@ =~= old(self)@);
                return Err(StandError::NoEffect);
            },
        };
        match self.targets.remove(&target_id) {
            Some(target) => {
                let center = target.position;
                self.targets.insert(target_id, Target { health: 0, is_alive: false, ..target });
                assert(self@ =~= old(self)@.after_detonate_bomb(target_id));
                let affected_targets = self.get_targets_in_radius(center, BLAST_RADIUS);
                assert(affected_targets@.to_set() =~= old(self)@.caught_in_blast(target_id));
                Ok(
                    ExplosionResult {
                        target_id,
                        damage_dealt: bomb.power,
                        explosion_radius: BLAST_RADIUS,
                        affected_targets,
                    },
                )
            },
            None => Err(StandError::NoEffect),
        }
    }

    /// The living targets that stand within `radius` of `center`, each
    /// exactly once.
    fn get_targets_in_radius(&self, center: (i32, i32, i32), radius: i32) -> (ids: Vec<u32>)
        ensures
            ids@.no_duplicates(),
            ids@.to_set() == Set::new(
                |id: u32|
                    alive(self@.targets, id) && within_radius(
                        self@.targets[id].position,
                        center,
                        radius,
                    ),
            ),
    {
        living_ids_within(&self.targets, center, radius)
    }

    /// Releases the heat-seeking bomb at time `at` onto the hottest living
    /// target. Refused with `AlreadyActive` while the ability is active,
    /// and with `NoValidTargets` when nothing is alive.
    pub fn activate_sheer_heart_attack_at(&mut self, at: Instant) -> (done: Result<(), StandError>)
        requires
            old(self)@.well_formed(),
        ensures
            final(self)@ == old(self)@.after_activate_sheer_heart_attack(at),
            final(self)@.well_formed(),
            match done {
                Ok(()) => old(self)@.activate_sheer_heart_attack_refusal() is None,
                Err(why) => old(self)@.activate_sheer_heart_attack_refusal() == Some(why),
            },
    {
        proof {
            lemma_activate_sheer_heart_attack_keeps_well_formed(self@, at);
        }
        if self.sheer_heart_attack_active {
            return Err(StandError::AlreadyActive);
        }
        match hottest_alive(&self.targets) {
            Some(id) => {
                self.active_bombs.insert(id, Bomb::armed(BombType::Secondary, id, at));
                self.sheer_heart_attack_active = true;
                assert(self@ =~= old(self)@.after_activate_sheer_heart_attack(at));
                Ok(())
            },
            None => Err(StandError::NoValidTargets),
        }
    }

    /// Releases the heat-seeking bomb now.
    pub fn activate_sheer_heart_attack(&mut self) -> (done: Result<(), StandError>)
        requires
            old(self)@.well_formed(),
        ensures
            exists|at: Instant| final(self)@ == old(self)@.after_activate_sheer_heart_attack(at),
            final(self)@.well_formed(),
            match done {
                Ok(()) => old(self)@.activate_sheer_heart_attack_refusal() is None,
                Err(why) => old(self)@.activate_sheer_heart_attack_refusal() == Some(why),
            },
    {
        let at = now();
        self.activate_sheer_heart_attack_at(at)
    }

    /// Lets the heat-seeking bomb look around at time `at`. Nothing happens
    /// while the ability is idle or the bomb's target lives. Otherwise the
    /// bomb moves to the hottest living target, stamped `at`, or stops for
    /// good when nothing is alive.
    pub fn update_sheer_heart_attack_at(&mut self, at: Instant)
        requires
            old(self)@.well_formed(),
        ensures
            final(self)@ == old(self)@.after_update_sheer_heart_attack(at),
            final(self)@.well_formed(),
            final(self)@.heat_seeking_consistent(),
    {
        proof {
            lemma_update_sheer_heart_attack_keeps_well_formed(self@, at);
        }
        if !self.sheer_heart_attack_active {
            return ;
        }
        let carrier = find_kind(&self.active_bombs, BombType::Secondary);
        let current_target_alive = match carrier {
            Some(id) => match self.targets.get(&id) {
                Some(target) => target.is_alive,
                None => false,
            },
            None => false,
        };
        assert(current_target_alive == self@.chasing()) by {
            if self@.chasing() {
                let id = choose|id: u32|
                    carries(self@.bombs, id, BombType::Secondary) && alive(self@.targets, id);
                assert(carries(self@.bombs, id, BombType::Secondary));
                assert(carrier == Some(id));
            }
            if current_target_alive {
                let id = carrier->0;
                assert(carries(self@.bombs, id, BombType::Secondary) && alive(self@.targets, id));
            }
        }
        if !current_target_alive {
            match hottest_alive(&self.targets) {
                Some(id) => {
                    sift_kind(&mut self.active_bombs, BombType::Secondary, false);
                    self.active_bombs.insert(id, Bomb::armed(BombType::Secondary, id, at));
                },
                None => {
                    sift_kind(&mut self.active_bombs, BombType::Secondary, false);
                    self.sheer_heart_attack_active = false;
                },
            }
        }
        assert(self@ =~= old(self)@.after_update_sheer_heart_attack(at));
    }

    /// Lets the heat-seeking bomb look around now.
    pub fn update_sheer_heart_attack(&mut self)
        requires
            old(self)@.well_formed(),
        ensures
            exists|at: Instant| final(self)@ == old(self)@.after_update_sheer_heart_attack(at),
            final(self)@.well_formed(),
            final(self)@.heat_seeking_consistent(),
    {
        let at = now();
        self.update_sheer_heart_attack_at(at);
    }

    /// Locks the third bomb onto `target_id` at time `at`. Refused with
    /// `AlreadyActive` while a target is locked, and with `NotFound` when
    /// `target_id` is not registered.
    pub fn activate_bites_the_dust_at(&mut self, target_id: u32, at: Instant) -> (done: Result<
        (),
        StandError,
    >)
        requires
            old(self)@.well_formed(),
        ensures
            final(self)@ == old(self)@.after_activate_bites_the_dust(target_id, at),
            final(self)@.well_formed(),
            match done {
                Ok(()) => old(self)@.activate_bites_the_dust_refusal(target_id) is None,
                Err(why) => old(self)@.activate_bites_the_dust_refusal(target_id) == Some(why),
            },
    {
        proof {
            lemma_activate_bites_the_dust_keeps_well_formed(self@, target_id, at);
        }
        if self.bites_the_dust_target.is_some() {
            return Err(StandError::AlreadyActive);
        }
        if !self.targets.contains_key(&target_id) {
            return Err(StandError::NotFound);
        }
        self.active_bombs.insert(target_id, Bomb::armed(BombType::Tertiary, target_id, at));
        self.bites_the_dust_target = Some(target_id);
        assert(self@ =~= old(self)@.after_activate_bites_the_dust(target_id, at));
        Ok(())
    }

    /// Locks the third bomb onto `target_id` now.
    pub fn activate_bites_the_dust(&mut self, target_id: u32) -> (done: Result<(), StandError>)
        requires
            old(self)@.well_formed(),
        ensures
            exists|at: Instant|
                final(self)@ == old(self)@.after_activate_bites_the_dust(target_id, at),
            final(self)@.well_formed(),
            match done {
                Ok(()) => old(self)@.activate_bites_the_dust_refusal(target_id) is None,
                Err(why) => old(self)@.activate_bites_the_dust_refusal(target_id) == Some(why),
            },
    {
        let at = now();
        self.activate_bites_the_dust_at(target_id, at)
    }

    /// Rewinds time, stamping the result `at`. Refused with `NotActive`
    /// while no target is locked. Otherwise one more loop is counted,
    /// every target but the locked one is back at full health, every bomb
    /// but the third is gone and the heat-seeking ability is idle. The
    /// lock stays in place, so time can be rewound again.
    pub fn trigger_time_loop_at(&mut self, at: Instant) -> (done: Result<
        TimeLoopResult,
        StandError,
    >)
        requires
            old(self)@.well_formed(),
            old(self)@.bites_the_dust_target is Some ==> old(self)@.time_loop_count < u32::MAX,
        ensures
            final(self)@ == old(self)@.after_trigger_time_loop(),
            final(self)@.well_formed(),
            match done {
                Ok(rewind) => {
                    &&& old(self)@.trigger_time_loop_refusal() is None
                    &&& rewind.loop_number == old(self)@.time_loop_count + 1
                    &&& rewind.timestamp == at
                    &&& rewind.reset_targets@.no_duplicates()
                    &&& rewind.reset_targets@.to_set() == old(self)@.rewind_set()
                },
                Err(why) => old(self)@.trigger_time_loop_refusal() == Some(why),
            },
    {
        proof {
            lemma_trigger_time_loop_keeps_well_formed(self@);
        }
        let locked = match self.bites_the_dust_target {
            Some(id) => id,
            None => {
                return Err(StandError::NotActive);
            },
        };
        self.time_loop_count = self.time_loop_count + 1;
        revive_all_but(&mut self.targets, locked);
        sift_kind(&mut self.active_bombs, BombType::Tertiary, true);
        self.sheer_heart_attack_active = false;
        let reset_targets = ids_except(&self.targets, locked);
        assert(self@ =~= old(self)@.after_trigger_time_loop());
        assert(self@.targets.dom() =~= old(self)@.targets.dom());
        Ok(TimeLoopResult { loop_number: self.time_loop_count, reset_targets, timestamp: at })
    }

    /// Rewinds time now.
    pub fn trigger_time_loop(&mut self) -> (done: Result<TimeLoopResult, StandError>)
        requires
            old(self)@.well_formed(),
            old(self)@.bites_the_dust_target is Some ==> old(self)@.time_loop_count < u32::MAX,
        ensures
            final(self)@ == old(self)@.after_trigger_time_loop(),
            final(self)@.well_formed(),
            match done {
                Ok(rewind) => {
                    &&& old(self)@.trigger_time_loop_refusal() is None
                    &&& rewind.loop_number == old(self)@.time_loop_count + 1
                    &&& rewind.reset_targets@.no_duplicates()
                    &&& rewind.reset_targets@.to_set() == old(self)@.rewind_set()
                },
                Err(why) => old(self)@.trigger_time_loop_refusal() == Some(why),
            },
    {
        let at = now();
        self.trigger_time_loop_at(at)
    }

    /// Where the stand is at: how many bombs are in place, whether each
    /// lasting ability is active, how often time was rewound and how many
    /// targets are alive.
    pub fn get_status(&self) -> (status: StandStatus)
        ensures
            status.active_bomb_count == self@.bombs.len(),
            status.sheer_heart_attack_active == self@.sheer_heart_attack_active,
            status.bites_the_dust_active == (self@.bites_the_dust_target is Some),
            status.time_loop_count == self@.time_loop_count,
            status.alive_targets == living(self@.targets).len(),
    {
        let alive_ids = living_ids(&self.targets);
        proof {
            alive_ids@.unique_seq_to_set();
        }
        StandStatus {
            active_bomb_count: self.active_bombs.len(),
            sheer_heart_attack_active: self.sheer_heart_attack_active,
            bites_the_dust_active: self.bites_the_dust_target.is_some(),
            time_loop_count: self.time_loop_count,
            alive_targets: alive_ids.len(),
        }
    }

    /// The name of the stand's user.
    pub fn user_name(&self) -> (name: &String)
        ensures
            name@ == self@.user_name,
    {
        &self.user_name
    }

    /// The name of the stand.
    pub fn stand_name(&self) -> (name: &String)
        ensures
            name@ == self@.stand_name,
    {
        &self.stand_name
    }

    /// The bombs in place, by the id of the target that carries each.
    pub fn active_bombs(&self) -> (bombs: &HashMap<u32, Bomb>)
        ensures
            bombs@ == self@.bombs,
    {
        &self.active_bombs
    }

    /// The battlefield, by id.
    pub fn targets(&self) -> (targets: &HashMap<u32, Target>)
        ensures
            targets@ == self@.targets,
    {
        &self.targets
    }

    /// How many primary bombs can be in place at once.
    pub fn max_primary_bombs(&self) -> (most: usize)
        ensures
            most == self@.max_primary_bombs,
    {
        self.max_primary_bombs
    }

    /// Whether the heat-seeking ability is active.
    pub fn sheer_heart_attack_active(&self) -> (active: bool)
        ensures
            active == self@.sheer_heart_attack_active,
    {
        self.sheer_heart_attack_active
    }

    /// The target that the third bomb is locked onto, if any.
    pub fn bites_the_dust_target(&self) -> (locked: Option<u32>)
        ensures
            locked == self@.bites_the_dust_target,
    {
        self.bites_the_dust_target
    }

    /// How often time has been rewound.
    pub fn time_loop_count(&self) -> (loops: u32)
        ensures
            loops == self@.time_loop_count,
    {
        self.time_loop_count
    }
}

} // verus!
