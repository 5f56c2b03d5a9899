use spleef::classes::{ClassKind, ItemKind};
use spleef::combat::{combat, isqrt_u64};
use spleef::events::InteractEntityEvent;
use spleef::geom::Vec3Milli;
use spleef::player::{CombatState, Player, Stage};

fn fighter(id: u64, pos: Vec3Milli) -> Player {
    let mut p = Player::join(id, pos, Vec3Milli::new(0, 0, 1000));
    p.stage = Stage::Arena;
    p.class = Some(ClassKind::Warrior);
    p.combat = Some(CombatState { last_attacked_tick: 0 });
    p
}

#[test]
fn isqrt_matches_perfect_and_imperfect_squares() {
    assert_eq!(isqrt_u64(0), 0);
    assert_eq!(isqrt_u64(1), 1);
    assert_eq!(isqrt_u64(8), 2);
    assert_eq!(isqrt_u64(9), 3);
    assert_eq!(isqrt_u64(9_000_000), 3000);
    assert_eq!(isqrt_u64(u64::MAX), 4_294_967_295);
}

#[test]
fn sprinting_non_rogue_knockback_magnitudes() {
    let mut attacker = fighter(1, Vec3Milli::new(0, 61000, 0));
    attacker.sprinting = true;
    let victim = fighter(2, Vec3Milli::new(3000, 61000, 0));
    let mut players = vec![attacker, victim];
    let events = vec![InteractEntityEvent { client: 1, entity: 2 }];
    combat(100, &mut players, &events);
    // direction is the unit vector from attacker to victim in the
    // horizontal plane: due east, scaled by 18.0; vertical 8.432
    assert_eq!(players[1].vel, Vec3Milli::new(18000, 8432, 0));
    assert_eq!(players[1].combat, Some(CombatState { last_attacked_tick: 100 }));
    // the attacker is untouched
    assert_eq!(players[0].vel, Vec3Milli::new(0, 0, 0));
}

#[test]
fn walking_knockback_magnitudes() {
    let attacker = fighter(1, Vec3Milli::new(0, 61000, 0));
    let victim = fighter(2, Vec3Milli::new(0, 61000, -4000));
    let mut players = vec![attacker, victim];
    let events = vec![InteractEntityEvent { client: 1, entity: 2 }];
    combat(50, &mut players, &events);
    assert_eq!(players[1].vel, Vec3Milli::new(0, 6432, -8000));
}

#[test]
fn rogue_with_sword_gets_the_horizontal_bonus() {
    let mut attacker = fighter(1, Vec3Milli::new(0, 61000, 0));
    attacker.sprinting = true;
    attacker.class = Some(ClassKind::Rogue);
    attacker.held_item = ItemKind::WoodenSword;
    let victim = fighter(2, Vec3Milli::new(5000, 61000, 0));
    let mut players = vec![attacker, victim];
    let events = vec![InteractEntityEvent { client: 1, entity: 2 }];
    combat(40, &mut players, &events);
    // 18.0 scaled by 1.2 horizontally; the vertical part is unscaled
    assert_eq!(players[1].vel, Vec3Milli::new(21600, 8432, 0));
}

#[test]
fn rogue_without_sword_gets_no_bonus() {
    let mut attacker = fighter(1, Vec3Milli::new(0, 61000, 0));
    attacker.sprinting = true;
    attacker.class = Some(ClassKind::Rogue);
    attacker.held_item = ItemKind::Empty;
    let victim = fighter(2, Vec3Milli::new(5000, 61000, 0));
    let mut players = vec![attacker, victim];
    let events = vec![InteractEntityEvent { client: 1, entity: 2 }];
    combat(40, &mut players, &events);
    assert_eq!(players[1].vel, Vec3Milli::new(18000, 8432, 0));
}

#[test]
fn second_hit_within_half_second_is_absorbed() {
    let mut attacker = fighter(1, Vec3Milli::new(0, 61000, 0));
    attacker.sprinting = true;
    let victim = fighter(2, Vec3Milli::new(3000, 61000, 0));
    let mut players = vec![attacker, victim];
    combat(100, &mut players, &vec![InteractEntityEvent { client: 1, entity: 2 }]);
    assert_eq!(players[1].combat, Some(CombatState { last_attacked_tick: 100 }));
    // scrub the velocity so a second application would be visible
    players[1].vel = Vec3Milli::new(0, 0, 0);
    combat(105, &mut players, &vec![InteractEntityEvent { client: 1, entity: 2 }]);
    assert_eq!(players[1].vel, Vec3Milli::new(0, 0, 0));
    assert_eq!(players[1].combat, Some(CombatState { last_attacked_tick: 100 }));
    // after the guard interval the same pair knocks back again
    combat(110, &mut players, &vec![InteractEntityEvent { client: 1, entity: 2 }]);
    assert_eq!(players[1].vel, Vec3Milli::new(18000, 8432, 0));
    assert_eq!(players[1].combat, Some(CombatState { last_attacked_tick: 110 }));
}

#[test]
fn two_events_in_one_batch_apply_once() {
    let mut attacker = fighter(1, Vec3Milli::new(0, 61000, 0));
    attacker.sprinting = true;
    let victim = fighter(2, Vec3Milli::new(3000, 61000, 0));
    let mut players = vec![attacker, victim];
    let events = vec![
        InteractEntityEvent { client: 1, entity: 2 },
        InteractEntityEvent { client: 1, entity: 2 },
    ];
    combat(100, &mut players, &events);
    assert_eq!(players[1].vel, Vec3Milli::new(18000, 8432, 0));
    assert_eq!(players[1].combat, Some(CombatState { last_attacked_tick: 100 }));
}

#[test]
fn lobby_bystander_without_combat_state_is_ignored() {
    let attacker = fighter(1, Vec3Milli::new(0, 61000, 0));
    let bystander = Player::join(3, Vec3Milli::new(2000, 61000, 0), Vec3Milli::new(0, 0, 1000));
    let mut players = vec![attacker, bystander];
    let events = vec![InteractEntityEvent { client: 1, entity: 3 }];
    combat(100, &mut players, &events);
    assert_eq!(players[1].vel, Vec3Milli::new(0, 0, 0));
    assert!(players[1].combat.is_none());
}

#[test]
fn self_interaction_is_ignored() {
    let mut attacker = fighter(1, Vec3Milli::new(0, 61000, 0));
    attacker.sprinting = true;
    let mut players = vec![attacker];
    let events = vec![InteractEntityEvent { client: 1, entity: 1 }];
    combat(100, &mut players, &events);
    assert_eq!(players[0].vel, Vec3Milli::new(0, 0, 0));
}

#[test]
fn overlapping_attacker_and_victim_keep_direction_zero() {
    let mut attacker = fighter(1, Vec3Milli::new(0, 61000, 0));
    attacker.sprinting = true;
    let victim = fighter(2, Vec3Milli::new(0, 59000, 0));
    let mut players = vec![attacker, victim];
    let events = vec![InteractEntityEvent { client: 1, entity: 2 }];
    combat(100, &mut players, &events);
    // no horizontal separation: only the vertical lift applies
    assert_eq!(players[1].vel, Vec3Milli::new(0, 8432, 0));
}
