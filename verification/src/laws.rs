//! What holds of every stand, whatever commands it has been given.

use crate::bomb::{Bomb, BombType};
use crate::error::StandError;
use crate::state::{
    alive, carries, draws_before, holds, hottest, is_hottest, living, without_kind, Command,
    StandState,
};
use crate::target::{Target, FULL_HEALTH};
use std::time::Instant;
use vstd::prelude::*;

verus! {

/// Among finitely many targets, and at least one, there is one that the
/// heat-seeking bomb prefers to all the others.
proof fn lemma_leader_exists(targets: Map<u32, Target>, among: Set<u32>)
    requires
        among.finite(),
        !among.is_empty(),
    ensures
        exists|lead: u32|
            among.contains(lead) && forall|other: u32|
                among.contains(other) ==> draws_before(targets, lead, other),
    decreases among.len(),
{
    let first = among.choose();
    let rest = among.remove(first);
    if rest.is_empty() {
        assert forall|other: u32| among.contains(other) implies draws_before(
            targets,
            first,
            other,
        ) by {
            if other != first {
                assert(rest.contains(other));
            }
        }
    } else {
        lemma_leader_exists(targets, rest);
        let lead = choose|lead: u32|
            rest.contains(lead) && forall|other: u32|
                rest.contains(other) ==> draws_before(targets, lead, other);
        if draws_before(targets, first, lead) {
            assert forall|other: u32| among.contains(other) implies draws_before(
                targets,
                first,
                other,
            ) by {
                if other != first {
                    assert(rest.contains(other));
                    assert(draws_before(targets, lead, other));
                }
            }
        } else {
            assert forall|other: u32| among.contains(other) implies draws_before(
                targets,
                lead,
                other,
            ) by {
                if other != first {
                    assert(rest.contains(other));
                }
            }
        }
    }
}

/// Any living target that the heat-seeking bomb prefers to all others is
/// the one it homes in on.
pub proof fn lemma_hottest_is(targets: Map<u32, Target>, id: u32)
    requires
        is_hottest(targets, id),
    ensures
        hottest(targets) == Some(id),
{
    let chosen = choose|other: u32| is_hottest(targets, other);
    assert(alive(targets, chosen) && alive(targets, id));
    assert(draws_before(targets, chosen, id) && draws_before(targets, id, chosen));
}

/// On a finite battlefield the heat-seeking bomb has a target exactly when
/// some target is alive, and its target is then the living target that it
/// prefers to all others.
pub proof fn lemma_hottest(targets: Map<u32, Target>)
    requires
        targets.dom().finite(),
    ensures
        hottest(targets) is None <==> living(targets).is_empty(),
        hottest(targets) matches Some(id) ==> is_hottest(targets, id),
{
    let among = living(targets);
    assert(among.subset_of(targets.dom()));
    vstd::set_lib::lemma_set_subset_finite(targets.dom(), among);
    if exists|id: u32| alive(targets, id) {
        let id = choose|id: u32| alive(targets, id);
        assert(among.contains(id));
        lemma_leader_exists(targets, among);
        let lead = choose|lead: u32|
            among.contains(lead) && forall|other: u32|
                among.contains(other) ==> draws_before(targets, lead, other);
        assert forall|other: u32| alive(targets, other) implies draws_before(
            targets,
            lead,
            other,
        ) by {
            assert(among.contains(other));
        }
        assert(is_hottest(targets, lead));
    } else {
        assert forall|id: u32| !among.contains(id) by {}
        assert(among =~= Set::empty());
    }
}

/// Whether `command`, given in state `s`, takes the heat-seeking bomb off
/// its target: by detonating it, or by putting a primary or third bomb in
/// its place.
pub open spec fn displaces_heat_seeking(s: StandState, command: Command) -> bool {
    match command {
        Command::PlacePrimaryBomb(id, _) => s.place_primary_bomb_refusal(id) is None && carries(
            s.bombs,
            id,
            BombType::Secondary,
        ),
        Command::DetonateBomb(id) => carries(s.bombs, id, BombType::Secondary),
        Command::ActivateBitesTheDust(id, _) => s.activate_bites_the_dust_refusal(id) is None
            && carries(s.bombs, id, BombType::Secondary),
        _ => false,
    }
}

/// A stand that has not acted yet is well formed, and its heat-seeking
/// ability is rightly counted as idle.
pub proof fn lemma_fresh_well_formed(user_name: Seq<char>)
    ensures
        StandState::fresh(user_name).well_formed(),
        StandState::fresh(user_name).heat_seeking_consistent(),
        StandState::fresh(user_name).targets_consistent(),
{
}

/// Registering a target keeps the stand well formed and leaves the
/// heat-seeking ability counted as it was.
pub proof fn lemma_add_target_keeps_well_formed(s: StandState, target: Target)
    requires
        s.well_formed(),
    ensures
        s.after_add_target(target).well_formed(),
        s.heat_seeking_consistent() ==> s.after_add_target(target).heat_seeking_consistent(),
        s.targets_consistent() && target.consistent() ==> s.after_add_target(
            target,
        ).targets_consistent(),
{
}

/// Placing a primary bomb, or failing to, keeps the stand well formed.
/// The heat-seeking ability stays rightly counted unless the primary bomb
/// takes the place of the heat-seeking bomb.
pub proof fn lemma_place_primary_bomb_keeps_well_formed(s: StandState, id: u32, at: Instant)
    requires
        s.well_formed(),
    ensures
        s.after_place_primary_bomb(id, at).well_formed(),
        s.targets_consistent() ==> s.after_place_primary_bomb(id, at).targets_consistent(),
        s.heat_seeking_consistent() && !displaces_heat_seeking(
            s,
            Command::PlacePrimaryBomb(id, at),
        ) ==> s.after_place_primary_bomb(id, at).heat_seeking_consistent(),
{
    let next = s.after_place_primary_bomb(id, at);
    if s.place_primary_bomb_refusal(id) is None {
        assert forall|a: u32| carries(next.bombs, a, BombType::Primary) implies a == id by {
            if a != id {
                assert(carries(s.bombs, a, BombType::Primary));
            }
        }
        assert forall|a: u32| carries(next.bombs, a, BombType::Secondary) implies carries(
            s.bombs,
            a,
            BombType::Secondary,
        ) by {}
        assert forall|a: u32| carries(next.bombs, a, BombType::Tertiary) implies carries(
            s.bombs,
            a,
            BombType::Tertiary,
        ) by {}
        if s.heat_seeking_consistent() && !carries(s.bombs, id, BombType::Secondary) {
            if s.sheer_heart_attack_active {
                let carrier = choose|a: u32| carries(s.bombs, a, BombType::Secondary);
                assert(carries(next.bombs, carrier, BombType::Secondary));
            }
        }
    }
}

/// Detonating a bomb, or failing to, keeps the stand well formed. The
/// heat-seeking ability stays rightly counted unless it was the
/// heat-seeking bomb that went off.
pub proof fn lemma_detonate_bomb_keeps_well_formed(s: StandState, id: u32)
    requires
        s.well_formed(),
    ensures
        s.after_detonate_bomb(id).well_formed(),
        s.targets_consistent() ==> s.after_detonate_bomb(id).targets_consistent(),
        s.heat_seeking_consistent() && !displaces_heat_seeking(s, Command::DetonateBomb(id))
            ==> s.after_detonate_bomb(id).heat_seeking_consistent(),
{
    let next = s.after_detonate_bomb(id);
    if s.detonate_bomb_refusal(id) is None {
        assert forall|a: u32, kind: BombType| carries(next.bombs, a, kind) implies carries(
            s.bombs,
            a,
            kind,
        ) by {}
        if s.heat_seeking_consistent() && !carries(s.bombs, id, BombType::Secondary) {
            if s.sheer_heart_attack_active {
                let carrier = choose|a: u32| carries(s.bombs, a, BombType::Secondary);
                assert(carries(next.bombs, carrier, BombType::Secondary));
            }
        }
    }
}

/// Releasing the heat-seeking bomb, or failing to, keeps the stand well
/// formed and leaves the ability rightly counted if it was so before.
/// Once released, the bomb sits on the hottest living target.
pub proof fn lemma_activate_sheer_heart_attack_keeps_well_formed(s: StandState, at: Instant)
    requires
        s.well_formed(),
    ensures
        s.after_activate_sheer_heart_attack(at).well_formed(),
        s.targets_consistent() ==> s.after_activate_sheer_heart_attack(at).targets_consistent(),
        s.heat_seeking_consistent() ==> s.after_activate_sheer_heart_attack(
            at,
        ).heat_seeking_consistent(),
        s.activate_sheer_heart_attack_refusal() is None ==> {
            let next = s.after_activate_sheer_heart_attack(at);
            &&& next.heat_seeking_consistent()
            &&& is_hottest(s.targets, hottest(s.targets)->0)
            &&& carries(next.bombs, hottest(s.targets)->0, BombType::Secondary)
        },
{
    let next = s.after_activate_sheer_heart_attack(at);
    lemma_hottest(s.targets);
    if s.activate_sheer_heart_attack_refusal() is None {
        let id = hottest(s.targets)->0;
        assert(carries(next.bombs, id, BombType::Secondary));
        assert forall|a: u32| carries(next.bombs, a, BombType::Secondary) implies a == id by {
            if a != id {
                assert(carries(s.bombs, a, BombType::Secondary));
            }
        }
        assert forall|a: u32| carries(next.bombs, a, BombType::Primary) implies carries(
            s.bombs,
            a,
            BombType::Primary,
        ) by {}
        assert forall|a: u32| carries(next.bombs, a, BombType::Tertiary) implies carries(
            s.bombs,
            a,
            BombType::Tertiary,
        ) by {}
    }
}

/// Whatever the heat-seeking bomb finds when it looks around, the stand
/// stays well formed, and afterwards the ability is rightly counted: it is
/// active exactly while the bomb is in place. If the ability is active
/// afterwards, the bomb sits on a living target.
pub proof fn lemma_update_sheer_heart_attack_keeps_well_formed(s: StandState, at: Instant)
    requires
        s.well_formed(),
    ensures
        s.after_update_sheer_heart_attack(at).well_formed(),
        s.after_update_sheer_heart_attack(at).heat_seeking_consistent(),
        s.targets_consistent() ==> s.after_update_sheer_heart_attack(at).targets_consistent(),
        s.after_update_sheer_heart_attack(at).sheer_heart_attack_active ==> s.after_update_sheer_heart_attack(
            at,
        ).chasing(),
{
    let next = s.after_update_sheer_heart_attack(at);
    lemma_hottest(s.targets);
    if s.sheer_heart_attack_active && !s.chasing() {
        let cleared = without_kind(s.bombs, BombType::Secondary);
        assert(cleared.dom().subset_of(s.bombs.dom()));
        vstd::set_lib::lemma_set_subset_finite(s.bombs.dom(), cleared.dom());
        assert forall|a: u32| !carries(cleared, a, BombType::Secondary) by {}
        assert forall|a: u32, kind: BombType|
            kind != BombType::Secondary && carries(next.bombs, a, kind) implies carries(
            s.bombs,
            a,
            kind,
        ) by {}
        match hottest(s.targets) {
            Some(id) => {
                assert(carries(next.bombs, id, BombType::Secondary));
                assert(alive(next.targets, id));
                assert forall|a: u32| carries(next.bombs, a, BombType::Secondary) implies a
                    == id by {
                    if a != id {
                        assert(carries(cleared, a, BombType::Secondary));
                    }
                }
            },
            None => {},
        }
    } else if s.sheer_heart_attack_active {
        let id = choose|id: u32|
            carries(s.bombs, id, BombType::Secondary) && alive(s.targets, id);
        assert(carries(s.bombs, id, BombType::Secondary));
    }
}

/// Locking the third bomb onto a target, or failing to, keeps the stand
/// well formed. The heat-seeking ability stays rightly counted unless the
/// third bomb takes the place of the heat-seeking bomb.
pub proof fn lemma_activate_bites_the_dust_keeps_well_formed(s: StandState, id: u32, at: Instant)
    requires
        s.well_formed(),
    ensures
        s.after_activate_bites_the_dust(id, at).well_formed(),
        s.targets_consistent() ==> s.after_activate_bites_the_dust(id, at).targets_consistent(),
        s.heat_seeking_consistent() && !displaces_heat_seeking(
            s,
            Command::ActivateBitesTheDust(id, at),
        ) ==> s.after_activate_bites_the_dust(id, at).heat_seeking_consistent(),
{
    let next = s.after_activate_bites_the_dust(id, at);
    if s.activate_bites_the_dust_refusal(id) is None {
        assert forall|a: u32| carries(next.bombs, a, BombType::Tertiary) implies a == id by {
            if a != id {
                assert(carries(s.bombs, a, BombType::Tertiary));
            }
        }
        assert forall|a: u32| carries(next.bombs, a, BombType::Primary) implies carries(
            s.bombs,
            a,
            BombType::Primary,
        ) by {}
        assert forall|a: u32| carries(next.bombs, a, BombType::Secondary) implies carries(
            s.bombs,
            a,
            BombType::Secondary,
        ) by {}
        if s.heat_seeking_consistent() && !carries(s.bombs, id, BombType::Secondary) {
            if s.sheer_heart_attack_active {
                let carrier = choose|a: u32| carries(s.bombs, a, BombType::Secondary);
                assert(carries(next.bombs, carrier, BombType::Secondary));
            }
        }
    }
}

/// Rewinding time, or failing to, keeps the stand well formed. After a
/// rewind the heat-seeking ability is idle and rightly counted so, only
/// the third bomb may be left, and every target but the locked one is
/// alive at full health.
pub proof fn lemma_trigger_time_loop_keeps_well_formed(s: StandState)
    requires
        s.well_formed(),
    ensures
        s.after_trigger_time_loop().well_formed(),
        s.heat_seeking_consistent() ==> s.after_trigger_time_loop().heat_seeking_consistent(),
        s.targets_consistent() ==> s.after_trigger_time_loop().targets_consistent(),
        s.bites_the_dust_target matches Some(locked) ==> {
            let next = s.after_trigger_time_loop();
            &&& next.heat_seeking_consistent()
            &&& !next.sheer_heart_attack_active
            &&& next.targets.dom() == s.targets.dom()
            &&& next.targets[locked] == s.targets[locked]
            &&& forall|id: u32|
                next.bombs.contains_key(id) ==> id == locked && next.bombs[id].bomb_type
                    == BombType::Tertiary
            &&& forall|id: u32|
                #![trigger next.targets[id]]
                s.targets.contains_key(id) && id != locked ==> next.targets[id].health
                    == FULL_HEALTH && next.targets[id].is_alive
        },
{
    let next = s.after_trigger_time_loop();
    match s.bites_the_dust_target {
        Some(locked) => {
            assert(next.bombs.dom().subset_of(s.bombs.dom()));
            vstd::set_lib::lemma_set_subset_finite(s.bombs.dom(), next.bombs.dom());
            assert(next.targets.dom() =~= s.targets.dom());
            assert forall|a: u32, kind: BombType| carries(next.bombs, a, kind) implies carries(
                s.bombs,
                a,
                kind,
            ) && kind == BombType::Tertiary by {}
            assert forall|a: u32| !carries(next.bombs, a, BombType::Secondary) by {}
        },
        None => {},
    }
}

/// Detonating where no bomb is in place is refused with `NoEffect` and
/// changes nothing.
pub proof fn lemma_detonate_without_bomb(s: StandState, id: u32)
    requires
        !s.bombs.contains_key(id),
    ensures
        s.detonate_bomb_refusal(id) == Some(StandError::NoEffect),
        s.after_detonate_bomb(id) == s,
{
}

/// With no target alive the heat-seeking bomb cannot be released: the
/// attempt is refused with `NoValidTargets`, and the ability stays idle.
pub proof fn lemma_heat_seeking_needs_a_living_target(s: StandState, at: Instant)
    requires
        !s.sheer_heart_attack_active,
        living(s.targets).is_empty(),
    ensures
        s.activate_sheer_heart_attack_refusal() == Some(StandError::NoValidTargets),
        s.after_activate_sheer_heart_attack(at) == s,
        !s.after_activate_sheer_heart_attack(at).sheer_heart_attack_active,
{
    assert forall|id: u32| !alive(s.targets, id) by {
        assert(!living(s.targets).contains(id));
    }
}

/// When the heat-seeking bomb looks around and does not sit on a living
/// target, it moves to the hottest living target, if there is one, and is
/// then the only heat-seeking bomb in place.
pub proof fn lemma_heat_seeking_moves_to_the_hottest(s: StandState, at: Instant)
    requires
        s.well_formed(),
        s.sheer_heart_attack_active,
        !s.chasing(),
        !living(s.targets).is_empty(),
    ensures
        ({
            let next = s.after_update_sheer_heart_attack(at);
            let id = hottest(s.targets)->0;
            &&& hottest(s.targets) is Some
            &&& is_hottest(s.targets, id)
            &&& next.sheer_heart_attack_active
            &&& next.bombs[id] == Bomb::spec_armed(BombType::Secondary, id, at)
            &&& forall|other: u32|
                carries(next.bombs, other, BombType::Secondary) ==> other == id
        }),
{
    lemma_hottest(s.targets);
    lemma_update_sheer_heart_attack_keeps_well_formed(s, at);
    let next = s.after_update_sheer_heart_attack(at);
    let id = hottest(s.targets)->0;
    assert(carries(next.bombs, id, BombType::Secondary));
}

/// Once a primary bomb is in place, no second one can be placed, on the
/// same target or on another, for as long as the first has not gone off:
/// after any attempt to place one that did not fail for want of the
/// target, the next attempt is refused with `EffectConflict`.
pub proof fn lemma_second_primary_bomb_refused(s: StandState, first: u32, second: u32, at: Instant)
    requires
        s.place_primary_bomb_refusal(first) != Some(StandError::NotFound),
    ensures
        s.after_place_primary_bomb(first, at).place_primary_bomb_refusal(second) == Some(
            StandError::EffectConflict,
        ),
{
    if s.place_primary_bomb_refusal(first) is None {
        assert(carries(s.after_place_primary_bomb(first, at).bombs, first, BombType::Primary));
    }
}

/// With the lock in place time can be rewound again and again. Each rewind
/// counts one more loop, leaves the lock where it is, and leaves every
/// target but the locked one alive at full health.
pub proof fn lemma_time_loop_repeats(s: StandState)
    requires
        s.well_formed(),
        s.trigger_time_loop_refusal() is None,
    ensures
        ({
            let once = s.after_trigger_time_loop();
            let twice = once.after_trigger_time_loop();
            let locked = s.bites_the_dust_target->0;
            &&& once.trigger_time_loop_refusal() is None
            &&& twice.trigger_time_loop_refusal() is None
            &&& once.time_loop_count == s.time_loop_count + 1
            &&& twice.time_loop_count == s.time_loop_count + 2
            &&& twice.bites_the_dust_target == s.bites_the_dust_target
            &&& once.targets.dom() == s.targets.dom()
            &&& twice.targets.dom() == s.targets.dom()
            &&& once.rewind_set() == s.rewind_set()
            &&& once.targets[locked] == s.targets[locked]
            &&& twice.targets[locked] == s.targets[locked]
            &&& forall|id: u32|
                #![trigger once.targets[id]]
                #![trigger twice.targets[id]]
                s.rewind_set().contains(id) ==> {
                    &&& once.targets[id].health == FULL_HEALTH && once.targets[id].is_alive
                    &&& twice.targets[id].health == FULL_HEALTH && twice.targets[id].is_alive
                }
        }),
{
    let once = s.after_trigger_time_loop();
    let twice = once.after_trigger_time_loop();
    assert(once.targets.dom() =~= s.targets.dom());
    assert(twice.targets.dom() =~= s.targets.dom());
}

/// Any one command keeps the stand well formed. It keeps every target
/// alive exactly when it has health left, provided a target that enters
/// the battlefield is so. It keeps the heat-seeking ability rightly
/// counted unless it takes the heat-seeking bomb off its target.
pub proof fn lemma_command_keeps_well_formed(s: StandState, command: Command)
    requires
        s.well_formed(),
    ensures
        s.after(command).well_formed(),
        s.targets_consistent() && (command matches Command::AddTarget(target)
            ==> target.consistent()) ==> s.after(command).targets_consistent(),
        s.heat_seeking_consistent() && !displaces_heat_seeking(s, command) ==> s.after(
            command,
        ).heat_seeking_consistent(),
{
    match command {
        Command::AddTarget(target) => lemma_add_target_keeps_well_formed(s, target),
        Command::PlacePrimaryBomb(id, at) => lemma_place_primary_bomb_keeps_well_formed(
            s,
            id,
            at,
        ),
        Command::DetonateBomb(id) => lemma_detonate_bomb_keeps_well_formed(s, id),
        Command::ActivateSheerHeartAttack(at) => {
            lemma_activate_sheer_heart_attack_keeps_well_formed(s, at)
        },
        Command::UpdateSheerHeartAttack(at) => lemma_update_sheer_heart_attack_keeps_well_formed(
            s,
            at,
        ),
        Command::ActivateBitesTheDust(id, at) => lemma_activate_bites_the_dust_keeps_well_formed(
            s,
            id,
            at,
        ),
        Command::TriggerTimeLoop => lemma_trigger_time_loop_keeps_well_formed(s),
    }
}

/// A command that takes the heat-seeking bomb off its target leaves the
/// ability counted as active though no such bomb is in place. So it stays
/// until the bomb next looks around or time is rewound.
pub proof fn lemma_displacement_outruns_the_count(s: StandState, command: Command)
    requires
        s.well_formed(),
        s.heat_seeking_consistent(),
        displaces_heat_seeking(s, command),
    ensures
        s.after(command).sheer_heart_attack_active,
        !holds(s.after(command).bombs, BombType::Secondary),
        !s.after(command).heat_seeking_consistent(),
{
    let next = s.after(command);
    assert forall|id: u32| !carries(next.bombs, id, BombType::Secondary) by {
        if carries(next.bombs, id, BombType::Secondary) {
            assert(carries(s.bombs, id, BombType::Secondary));
        }
    }
}

/// Whatever commands a well-formed stand is given, and however many, it is
/// well formed after each of them: at most one primary bomb is in place,
/// at most one target is locked, every bomb sits on a registered target,
/// and a heat-seeking bomb is in place only while its ability is active.
pub proof fn lemma_well_formed_after_all(s: StandState, commands: Seq<Command>)
    requires
        s.well_formed(),
    ensures
        s.after_all(commands).well_formed(),
    decreases commands.len(),
{
    if commands.len() > 0 {
        lemma_well_formed_after_all(s, commands.drop_last());
        lemma_command_keeps_well_formed(s.after_all(commands.drop_last()), commands.last());
    }
}

/// A stand that has not acted yet is well formed after any commands.
pub proof fn lemma_well_formed_from_the_start(user_name: Seq<char>, commands: Seq<Command>)
    ensures
        StandState::fresh(user_name).after_all(commands).well_formed(),
{
    lemma_fresh_well_formed(user_name);
    lemma_well_formed_after_all(StandState::fresh(user_name), commands);
}

/// As long as every target enters the battlefield alive exactly when it
/// has health left, every target stays so, whatever commands are given.
pub proof fn lemma_targets_consistent_after_all(s: StandState, commands: Seq<Command>)
    requires
        s.well_formed(),
        s.targets_consistent(),
        forall|i: int|
            0 <= i < commands.len() ==> (#[trigger] commands[i] matches Command::AddTarget(target)
                ==> target.consistent()),
    ensures
        s.after_all(commands).targets_consistent(),
    decreases commands.len(),
{
    if commands.len() > 0 {
        lemma_well_formed_after_all(s, commands.drop_last());
        lemma_targets_consistent_after_all(s, commands.drop_last());
        lemma_command_keeps_well_formed(s.after_all(commands.drop_last()), commands.last());
    }
}

/// The heat-seeking ability stays rightly counted through any commands of
/// which none takes the heat-seeking bomb off its target.
pub proof fn lemma_heat_seeking_consistent_after_all(s: StandState, commands: Seq<Command>)
    requires
        s.well_formed(),
        s.heat_seeking_consistent(),
        forall|i: int|
            0 <= i < commands.len() ==> !displaces_heat_seeking(
                s.after_all(commands.take(i)),
                #[trigger] commands[i],
            ),
    ensures
        s.after_all(commands).heat_seeking_consistent(),
    decreases commands.len(),
{
    if commands.len() > 0 {
        let rest = commands.drop_last();
        assert forall|i: int| 0 <= i < rest.len() implies !displaces_heat_seeking(
            s.after_all(rest.take(i)),
            #[trigger] rest[i],
        ) by {
            assert(rest.take(i) =~= commands.take(i));
            assert(rest[i] == commands[i]);
        }
        lemma_well_formed_after_all(s, rest);
        lemma_heat_seeking_consistent_after_all(s, rest);
        assert(commands.take(commands.len() - 1) =~= rest);
        assert(!displaces_heat_seeking(s.after_all(rest), commands[commands.len() - 1]));
        lemma_command_keeps_well_formed(s.after_all(rest), commands.last());
    }
}

/// However the heat-seeking ability came to be wrongly counted, it is
/// rightly counted again as soon as the bomb has looked around.
pub proof fn lemma_update_restores_heat_seeking(s: StandState, commands: Seq<Command>, at: Instant)
    requires
        s.well_formed(),
    ensures
        s.after_all(commands).after(Command::UpdateSheerHeartAttack(at)).heat_seeking_consistent(),
{
    lemma_well_formed_after_all(s, commands);
    lemma_update_sheer_heart_attack_keeps_well_formed(s.after_all(commands), at);
}

} // verus!
