use queen_killer_stand::{QueenKiller, Target};

/// A length or a temperature as the library counts it: in thousandths.
fn fixed(value: f64) -> i32 {
    (value * 1000.0).round() as i32
}

#[test]
fn test_queen_killer_creation() {
    let stand = QueenKiller::new("Yoshikage Kira".to_string());
    assert_eq!(stand.user_name(), "Yoshikage Kira");
    assert_eq!(stand.stand_name(), "Queen Killer");
}

#[test]
fn test_primary_bomb_placement() {
    let mut stand = QueenKiller::new("Kira".to_string());
    let target = Target {
        id: 1,
        name: "Enemy".to_string(),
        position: (fixed(0.0), fixed(0.0), fixed(0.0)),
        health: 100,
        temperature: fixed(36.5),
        is_alive: true,
    };

    stand.add_target(target);
    assert!(stand.place_primary_bomb(1).is_ok());
    assert!(stand.active_bombs().contains_key(&1));
}
