use queen_killer_stand::{BombType, QueenKiller, StandError, Target};

fn assert_well_formed(kira: &QueenKiller) {
    let bombs = kira.active_bombs();
    let targets = kira.targets();
    let mut per_kind = [0usize; 3];
    for (id, bomb) in bombs {
        assert!(targets.contains_key(id));
        assert_eq!(bomb.target_id, *id);
        assert!(bomb.is_active);
        assert_eq!(bomb.power, bomb.bomb_type.power());
        match bomb.bomb_type {
            BombType::Primary => per_kind[0] += 1,
            BombType::Secondary => {
                per_kind[1] += 1;
                assert!(kira.sheer_heart_attack_active());
            }
            BombType::Tertiary => {
                per_kind[2] += 1;
                assert_eq!(kira.bites_the_dust_target(), Some(*id));
            }
        }
    }
    assert!(per_kind[0] <= kira.max_primary_bombs());
    assert!(per_kind[1] <= 1);
    assert!(per_kind[2] <= 1);
    if let Some(locked) = kira.bites_the_dust_target() {
        assert!(targets.contains_key(&locked));
    }
    for (id, target) in targets {
        assert_eq!(target.id, *id);
        assert_eq!(target.is_alive, target.health > 0);
    }
    let status = kira.get_status();
    assert_eq!(status.active_bomb_count, bombs.len());
    assert_eq!(
        status.alive_targets,
        targets.values().filter(|target| target.is_alive).count()
    );
    assert_eq!(status.sheer_heart_attack_active, kira.sheer_heart_attack_active());
    assert_eq!(
        status.bites_the_dust_active,
        kira.bites_the_dust_target().is_some()
    );
    assert_eq!(status.time_loop_count, kira.time_loop_count());
}

fn heat_seeking_bomb_in_place(kira: &QueenKiller) -> bool {
    kira.active_bombs()
        .values()
        .any(|bomb| bomb.bomb_type == BombType::Secondary)
}

#[test]
fn stand_stays_well_formed_through_a_long_battle() {
    let mut kira = QueenKiller::new("Kira".to_string());
    let mut seed: u64 = 0x5eed_1234_abcd_ef01;
    let mut loops = 0;
    for _ in 0..4000 {
        seed = seed
            .wrapping_mul(6364136223846793005)
            .wrapping_add(1442695040888963407);
        let roll = (seed >> 33) as u32;
        let id = (roll >> 8) % 7;
        match roll % 8 {
            0 => {
                let health = ((roll >> 12) % 3) as i32 * 50;
                kira.add_target(Target {
                    id,
                    name: format!("fighter {}", id),
                    position: (
                        ((roll >> 16) % 9_000) as i32,
                        ((roll >> 5) % 9_000) as i32,
                        ((roll >> 9) % 9_000) as i32,
                    ),
                    health,
                    temperature: 36_000 + ((roll >> 20) % 2_000) as i32,
                    is_alive: health > 0,
                });
            }
            1 => {
                let had_primary = kira
                    .active_bombs()
                    .values()
                    .any(|bomb| bomb.bomb_type == BombType::Primary);
                let known = kira.targets().contains_key(&id);
                let placed = kira.place_primary_bomb(id);
                if had_primary {
                    assert_eq!(placed, Err(StandError::EffectConflict));
                } else if !known {
                    assert_eq!(placed, Err(StandError::NotFound));
                } else {
                    assert_eq!(placed, Ok(()));
                }
            }
            2 | 3 => {
                let armed = kira.active_bombs().contains_key(&id);
                let blast = kira.detonate_bomb(id);
                assert_eq!(blast.is_ok(), armed);
                if let Ok(blast) = blast {
                    assert!(!blast.affected_targets.contains(&id));
                    for caught in &blast.affected_targets {
                        assert!(kira.lookup(*caught).unwrap().is_alive);
                    }
                }
            }
            4 => {
                let active = kira.sheer_heart_attack_active();
                let anyone = kira.get_status().alive_targets > 0;
                let released = kira.activate_sheer_heart_attack();
                if active {
                    assert_eq!(released, Err(StandError::AlreadyActive));
                } else if !anyone {
                    assert_eq!(released, Err(StandError::NoValidTargets));
                } else {
                    assert_eq!(released, Ok(()));
                    assert!(heat_seeking_bomb_in_place(&kira));
                }
            }
            5 => {
                kira.update_sheer_heart_attack();
                assert_eq!(
                    kira.sheer_heart_attack_active(),
                    heat_seeking_bomb_in_place(&kira)
                );
            }
            6 => {
                let locked = kira.bites_the_dust_target();
                let known = kira.targets().contains_key(&id);
                let done = kira.activate_bites_the_dust(id);
                if locked.is_some() {
                    assert_eq!(done, Err(StandError::AlreadyActive));
                    assert_eq!(kira.bites_the_dust_target(), locked);
                } else if !known {
                    assert_eq!(done, Err(StandError::NotFound));
                } else {
                    assert_eq!(done, Ok(()));
                    assert_eq!(kira.bites_the_dust_target(), Some(id));
                }
            }
            _ => {
                let locked = kira.bites_the_dust_target();
                match kira.trigger_time_loop() {
                    Ok(rewind) => {
                        loops += 1;
                        assert_eq!(rewind.loop_number, loops);
                        assert!(!kira.sheer_heart_attack_active());
                        assert_eq!(rewind.reset_targets.len(), kira.targets().len() - 1);
                        for reset in &rewind.reset_targets {
                            assert_ne!(Some(*reset), locked);
                            let target = kira.lookup(*reset).unwrap();
                            assert_eq!(target.health, 100);
                            assert!(target.is_alive);
                        }
                    }
                    Err(why) => {
                        assert_eq!(why, StandError::NotActive);
                        assert_eq!(locked, None);
                    }
                }
            }
        }
        assert_well_formed(&kira);
    }
    assert!(loops > 0);
}

#[test]
fn heat_seeking_flag_outlives_its_bomb_until_the_next_update() {
    let mut kira = QueenKiller::new("Kira".to_string());
    kira.add_target(Target {
        id: 1,
        name: "Only one".to_string(),
        position: (0, 0, 0),
        health: 100,
        temperature: 36_500,
        is_alive: true,
    });
    assert_eq!(kira.activate_sheer_heart_attack(), Ok(()));
    assert!(kira.detonate_bomb(1).is_ok());
    assert!(kira.sheer_heart_attack_active());
    assert!(!heat_seeking_bomb_in_place(&kira));
    assert_well_formed(&kira);
    kira.update_sheer_heart_attack();
    assert!(!kira.sheer_heart_attack_active());
    assert!(!heat_seeking_bomb_in_place(&kira));
}
