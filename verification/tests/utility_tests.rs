use queen_killer_stand::ability::battle_utils::{adorn, format_jojo_text, get_stand_cry};
use queen_killer_stand::registry::{
    find_kind, hottest_alive, ids_except, ids_of, living_ids, living_ids_within, revive_all_but,
    sift_kind,
};
use queen_killer_stand::target::is_within_radius;
use queen_killer_stand::{Bomb, BombType, Target};
use std::collections::HashMap;
use std::time::Instant;

fn target(id: u32, position: (i32, i32, i32), health: i32, temperature: i32) -> Target {
    Target {
        id,
        name: format!("target {}", id),
        position,
        health,
        temperature,
        is_alive: health > 0,
    }
}

fn field(targets: Vec<Target>) -> HashMap<u32, Target> {
    let mut field = HashMap::new();
    for target in targets {
        field.insert(target.id, target);
    }
    field
}

fn sorted(mut ids: Vec<u32>) -> Vec<u32> {
    ids.sort();
    ids
}

#[test]
fn stand_cry() {
    assert_eq!(get_stand_cry(), "KILLER QUEEN!");
}

#[test]
fn lettering_is_upper_case_between_ornaments() {
    assert_eq!(
        format_jojo_text("hello"),
        "\u{e2}\u{153}\u{a8} HELLO \u{e2}\u{153}\u{a8}"
    );
    assert_eq!(
        format_jojo_text("Bites the Dust"),
        "\u{e2}\u{153}\u{a8} BITES THE DUST \u{e2}\u{153}\u{a8}"
    );
    assert_eq!(
        format_jojo_text(""),
        "\u{e2}\u{153}\u{a8}  \u{e2}\u{153}\u{a8}"
    );
    assert_eq!(
        format_jojo_text("stra\u{df}e"),
        "\u{e2}\u{153}\u{a8} STRASSE \u{e2}\u{153}\u{a8}"
    );
}

#[test]
fn adorning_keeps_the_text_as_it_is() {
    assert_eq!(adorn("hello"), "\u{e2}\u{153}\u{a8} hello \u{e2}\u{153}\u{a8}");
}

#[test]
fn bombs_carry_the_power_of_their_kind() {
    let at = Instant::now();
    assert_eq!(BombType::Primary.power(), 100);
    assert_eq!(BombType::Secondary.power(), 80);
    assert_eq!(BombType::Tertiary.power(), 200);
    let bomb = Bomb::armed(BombType::Tertiary, 12, at);
    assert_eq!(bomb.bomb_type, BombType::Tertiary);
    assert_eq!(bomb.target_id, 12);
    assert_eq!(bomb.created_at, at);
    assert!(bomb.is_active);
    assert_eq!(bomb.power, 200);
}

#[test]
fn radius_includes_its_boundary() {
    assert!(is_within_radius((3_000, 4_000, 0), (0, 0, 0), 5_000));
    assert!(!is_within_radius((3_000, 4_000, 1), (0, 0, 0), 4_999));
    assert!(!is_within_radius((3_000, 4_001, 0), (0, 0, 0), 5_000));
    assert!(is_within_radius((1, 2, 2), (0, 0, 0), 3));
    assert!(!is_within_radius((1, 2, 2), (0, 0, 0), 2));
    assert!(is_within_radius((-7, 9, 11), (-7, 9, 11), 0));
    assert!(!is_within_radius((-7, 9, 11), (-7, 9, 11), -1));
    assert!(!is_within_radius((0, 0, 1), (0, 0, 0), 0));
}

#[test]
fn radius_holds_at_the_ends_of_the_range() {
    assert!(!is_within_radius(
        (i32::MIN, i32::MIN, i32::MIN),
        (i32::MAX, i32::MAX, i32::MAX),
        i32::MAX
    ));
    assert!(is_within_radius(
        (i32::MIN, 0, 0),
        (-1, 0, 0),
        i32::MAX
    ));
    assert!(!is_within_radius((i32::MIN, 0, 0), (0, 0, 0), i32::MAX));
}

#[test]
fn cloned_target_keeps_every_field() {
    let first = target(5, (1, -2, 3), 64, 37_100);
    let copy = first.clone();
    assert_eq!(copy.id, 5);
    assert_eq!(copy.name, "target 5");
    assert_eq!(copy.position, (1, -2, 3));
    assert_eq!(copy.health, 64);
    assert_eq!(copy.temperature, 37_100);
    assert!(copy.is_alive);
}

#[test]
fn ids_are_listed_once_each() {
    let field = field(vec![
        target(3, (0, 0, 0), 100, 1),
        target(1, (0, 0, 0), 0, 2),
        target(2, (0, 0, 0), 100, 3),
    ]);
    assert_eq!(sorted(ids_of(&field)), vec![1, 2, 3]);
    assert_eq!(sorted(living_ids(&field)), vec![2, 3]);
    assert_eq!(sorted(ids_except(&field, 2)), vec![1, 3]);
    assert_eq!(sorted(ids_except(&field, 8)), vec![1, 2, 3]);
    let nothing: HashMap<u32, Target> = HashMap::new();
    assert!(ids_of(&nothing).is_empty());
    assert!(living_ids(&nothing).is_empty());
}

#[test]
fn living_ids_within_reach() {
    let field = field(vec![
        target(1, (0, 0, 0), 100, 1),
        target(2, (0, 0, 10), 100, 1),
        target(3, (0, 0, 11), 100, 1),
        target(4, (0, 5, 0), 0, 1),
    ]);
    assert_eq!(sorted(living_ids_within(&field, (0, 0, 0), 10)), vec![1, 2]);
    assert!(living_ids_within(&field, (0, 0, 0), -1).is_empty());
}

#[test]
fn hottest_is_the_warmest_of_the_living() {
    let field = field(vec![
        target(1, (0, 0, 0), 100, 36_500),
        target(2, (0, 0, 0), 100, 37_200),
        target(3, (0, 0, 0), 0, 41_000),
        target(4, (0, 0, 0), 100, -5_000),
    ]);
    assert_eq!(hottest_alive(&field), Some(2));
    let dead = self::field(vec![target(3, (0, 0, 0), 0, 41_000)]);
    assert_eq!(hottest_alive(&dead), None);
    let cold = self::field(vec![
        target(8, (0, 0, 0), 1, i32::MIN),
        target(5, (0, 0, 0), 1, i32::MIN),
    ]);
    assert_eq!(hottest_alive(&cold), Some(5));
}

#[test]
fn bombs_are_found_and_sifted_by_kind() {
    let at = Instant::now();
    let mut bombs: HashMap<u32, Bomb> = HashMap::new();
    bombs.insert(1, Bomb::armed(BombType::Primary, 1, at));
    bombs.insert(2, Bomb::armed(BombType::Secondary, 2, at));
    bombs.insert(3, Bomb::armed(BombType::Tertiary, 3, at));
    assert_eq!(find_kind(&bombs, BombType::Secondary), Some(2));
    assert_eq!(find_kind(&bombs, BombType::Tertiary), Some(3));

    sift_kind(&mut bombs, BombType::Secondary, false);
    assert_eq!(sorted(ids_of(&bombs)), vec![1, 3]);
    assert_eq!(find_kind(&bombs, BombType::Secondary), None);

    sift_kind(&mut bombs, BombType::Tertiary, true);
    assert_eq!(ids_of(&bombs), vec![3]);
    assert_eq!(bombs[&3].bomb_type, BombType::Tertiary);
}

#[test]
fn revival_spares_one_target() {
    let mut field = field(vec![
        target(1, (0, 0, 0), 0, 1),
        target(2, (0, 0, 0), 0, 2),
        target(3, (4, 5, 6), 250, 3),
    ]);
    revive_all_but(&mut field, 2);
    assert_eq!(field.len(), 3);
    assert_eq!(field[&1].health, 100);
    assert!(field[&1].is_alive);
    assert_eq!(field[&2].health, 0);
    assert!(!field[&2].is_alive);
    assert_eq!(field[&3].health, 100);
    assert!(field[&3].is_alive);
    assert_eq!(field[&3].position, (4, 5, 6));
    assert_eq!(field[&3].temperature, 3);
}
