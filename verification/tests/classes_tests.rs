use spleef::block::{Block, WoolColor};
use spleef::classes::{
    init_archer, init_mage, init_rogue, init_warrior, update_cooldown, warrior_dig,
    ClassKind, Cooldown, ItemKind,
};
use spleef::events::DiggingEvent;
use spleef::geom::{LatticePos, Vec3Milli};
use spleef::grid::VoxelGrid;
use spleef::player::{GameMode, Player, Stage};

fn fresh(id: u64, class: ClassKind) -> Player {
    let mut p = Player::join(id, Vec3Milli::new(0, 61000, 0), Vec3Milli::new(0, 0, 1000));
    p.stage = Stage::ClassPicked;
    p.class = Some(class);
    p.fresh_class = true;
    p
}

fn warrior(id: u64) -> Player {
    let mut p = fresh(id, ClassKind::Warrior);
    p.stage = Stage::Arena;
    p.fresh_class = false;
    p.held_item = ItemKind::WoodenShovel;
    p.game_mode = GameMode::Survival;
    p
}

fn wool_grid(cells: &[(i32, i32, i32)]) -> VoxelGrid {
    let mut v = Vec::new();
    for &(x, y, z) in cells {
        v.push((LatticePos::new(x, y, z), Block::Wool(WoolColor::Red)));
    }
    VoxelGrid::from_cells(v)
}

#[test]
fn loadouts_equip_the_single_ability_item() {
    let mut players = vec![
        fresh(1, ClassKind::Warrior),
        fresh(2, ClassKind::Archer),
        fresh(3, ClassKind::Mage),
        fresh(4, ClassKind::Rogue),
    ];
    init_warrior(&mut players);
    init_archer(&mut players);
    init_mage(&mut players);
    init_rogue(&mut players);
    assert_eq!(players[0].held_item, ItemKind::WoodenShovel);
    assert_eq!(players[0].game_mode, GameMode::Survival);
    assert_eq!(players[1].held_item, ItemKind::Bow);
    assert_eq!(players[1].game_mode, GameMode::Adventure);
    assert_eq!(players[2].held_item, ItemKind::FireworkRocket);
    assert_eq!(players[3].held_item, ItemKind::WoodenSword);
    assert_eq!(players[3].speed_factor_milli, 200);
    assert_eq!(players[0].speed_factor_milli, 1000);
    for p in &players {
        assert!(!p.fresh_class);
    }
}

#[test]
fn cooldown_of_one_detaches_after_one_tick() {
    let mut p = warrior(1);
    p.cooldown = Some(Cooldown(1));
    let mut players = vec![p];
    update_cooldown(&mut players);
    assert!(players[0].cooldown.is_none());
}

#[test]
fn cooldown_counts_down_until_detached() {
    let mut p = warrior(1);
    p.cooldown = Some(Cooldown(5));
    let mut players = vec![p];
    update_cooldown(&mut players);
    assert_eq!(players[0].cooldown, Some(Cooldown(4)));
    for _ in 0..4 {
        update_cooldown(&mut players);
    }
    assert!(players[0].cooldown.is_none());
}

#[test]
fn dig_on_destructible_cell_clears_and_throttles() {
    let mut players = vec![warrior(1)];
    let target = LatticePos::new(0, 60, 0);
    let mut grid = wool_grid(&[(0, 60, 0)]);
    let events = vec![DiggingEvent { client: 1, position: target }];
    warrior_dig(&mut players, &mut grid, &events);
    assert_eq!(grid.get(target), Some(Block::Air));
    assert_eq!(players[0].cooldown, Some(Cooldown(1)));
}

#[test]
fn dig_on_solid_cell_changes_nothing() {
    let mut players = vec![warrior(1)];
    let target = LatticePos::new(0, 60, 0);
    let mut grid = VoxelGrid::from_cells(vec![(target, Block::Solid)]);
    let events = vec![DiggingEvent { client: 1, position: target }];
    warrior_dig(&mut players, &mut grid, &events);
    assert_eq!(grid.get(target), Some(Block::Solid));
    assert!(players[0].cooldown.is_none());
}

#[test]
fn dig_twice_in_one_tick_fires_once() {
    let mut players = vec![warrior(1)];
    let first = LatticePos::new(0, 60, 0);
    let second = LatticePos::new(1, 60, 0);
    let mut grid = wool_grid(&[(0, 60, 0), (1, 60, 0)]);
    let events = vec![
        DiggingEvent { client: 1, position: first },
        DiggingEvent { client: 1, position: second },
    ];
    warrior_dig(&mut players, &mut grid, &events);
    assert_eq!(grid.get(first), Some(Block::Air));
    assert_eq!(grid.get(second), Some(Block::Wool(WoolColor::Red)));
    assert_eq!(players[0].cooldown, Some(Cooldown(1)));
}

#[test]
fn dig_gated_by_live_cooldown() {
    let mut p = warrior(1);
    p.cooldown = Some(Cooldown(1));
    let mut players = vec![p];
    let target = LatticePos::new(0, 60, 0);
    let mut grid = wool_grid(&[(0, 60, 0)]);
    let events = vec![DiggingEvent { client: 1, position: target }];
    warrior_dig(&mut players, &mut grid, &events);
    assert_eq!(grid.get(target), Some(Block::Wool(WoolColor::Red)));
    assert_eq!(players[0].cooldown, Some(Cooldown(1)));
}

#[test]
fn dig_needs_the_shovel_in_hand() {
    let mut p = warrior(1);
    p.held_item = ItemKind::Empty;
    let mut players = vec![p];
    let target = LatticePos::new(0, 60, 0);
    let mut grid = wool_grid(&[(0, 60, 0)]);
    let events = vec![DiggingEvent { client: 1, position: target }];
    warrior_dig(&mut players, &mut grid, &events);
    assert_eq!(grid.get(target), Some(Block::Wool(WoolColor::Red)));
    assert!(players[0].cooldown.is_none());
}

#[test]
fn dig_by_non_warrior_is_ignored() {
    let mut p = warrior(1);
    p.class = Some(ClassKind::Archer);
    p.held_item = ItemKind::WoodenShovel;
    let mut players = vec![p];
    let target = LatticePos::new(0, 60, 0);
    let mut grid = wool_grid(&[(0, 60, 0)]);
    let events = vec![DiggingEvent { client: 1, position: target }];
    warrior_dig(&mut players, &mut grid, &events);
    assert_eq!(grid.get(target), Some(Block::Wool(WoolColor::Red)));
}

#[test]
fn dig_event_for_unknown_entity_is_ignored() {
    let mut players = vec![warrior(1)];
    let target = LatticePos::new(0, 60, 0);
    let mut grid = wool_grid(&[(0, 60, 0)]);
    let events = vec![DiggingEvent { client: 99, position: target }];
    warrior_dig(&mut players, &mut grid, &events);
    assert_eq!(grid.get(target), Some(Block::Wool(WoolColor::Red)));
    assert!(players[0].cooldown.is_none());
}

#[test]
fn class_names() {
    assert_eq!(ClassKind::Warrior.name(), "Warrior");
    assert_eq!(ClassKind::Archer.name(), "Archer");
    assert_eq!(ClassKind::Mage.name(), "Mage");
    assert_eq!(ClassKind::Rogue.name(), "Rogue");
}
