use spleef::area::Area;
use spleef::block::{Block, WoolColor};
use spleef::classes::{ClassKind, Cooldown, ItemKind};
use spleef::events::{
    DiggingEvent, InteractBlockEvent, InteractEntityEvent, InteractItemEvent,
};
use spleef::floor::create_arena_blocks;
use spleef::geom::{LatticePos, Vec3Milli};
use spleef::grid::VoxelGrid;
use spleef::level::ClassTrigger;
use spleef::player::{Player, Stage};
use spleef::projectile::Projectile;
use spleef::sim::tick;

fn no_digs() -> Vec<DiggingEvent> {
    Vec::new()
}

fn no_items() -> Vec<InteractItemEvent> {
    Vec::new()
}

fn no_blocks() -> Vec<InteractBlockEvent> {
    Vec::new()
}

fn no_melee() -> Vec<InteractEntityEvent> {
    Vec::new()
}

fn marker_trigger() -> Vec<ClassTrigger> {
    vec![ClassTrigger {
        area: Area::new(LatticePos::new(0, 60, 0), LatticePos::new(1, 64, 1)),
        class: ClassKind::Warrior,
    }]
}

fn small_world() -> (VoxelGrid, spleef::floor::DynamicBlocks) {
    let grid = VoxelGrid::from_cells(vec![
        (LatticePos::new(0, 60, 0), Block::Wool(WoolColor::White)),
        (LatticePos::new(1, 60, 0), Block::Wool(WoolColor::Red)),
    ]);
    let area = Area::new(LatticePos::new(-10, 0, -10), LatticePos::new(10, 100, 10));
    let floor = create_arena_blocks(&grid, &area);
    (grid, floor)
}

#[test]
fn one_tick_assigns_class_and_reports_the_pick() {
    let (mut grid, mut floor) = small_world();
    let mut players = vec![Player::join(
        7,
        Vec3Milli::new(500, 61000, 500),
        Vec3Milli::new(0, 0, 1000),
    )];
    let mut projectiles: Vec<Projectile> = Vec::new();
    let triggers = marker_trigger();
    let (notices, report) = tick(
        0,
        &mut players,
        &mut projectiles,
        &mut grid,
        &mut floor,
        &triggers,
        &no_digs(),
        &no_items(),
        &no_blocks(),
        &no_melee(),
    );
    // the trigger fires, the move happens the same tick, and the
    // loadout follows on the next
    assert_eq!(notices, vec![(7, ClassKind::Warrior)]);
    assert!(report.is_empty());
    assert_eq!(players[0].stage, Stage::Arena);
    assert_eq!(players[0].pos, Vec3Milli::new(0, 61000, 0));
    assert!(players[0].loading.is_some());
    let (notices2, _) = tick(
        1,
        &mut players,
        &mut projectiles,
        &mut grid,
        &mut floor,
        &triggers,
        &no_digs(),
        &no_items(),
        &no_blocks(),
        &no_melee(),
    );
    assert!(notices2.is_empty());
    assert_eq!(players[0].held_item, ItemKind::WoodenShovel);
}

#[test]
fn one_tick_dig_clears_cell_and_throttles() {
    let (mut grid, mut floor) = small_world();
    let mut warrior = Player::join(1, Vec3Milli::new(500, 61000, 500), Vec3Milli::new(0, 0, 1000));
    warrior.stage = Stage::Arena;
    warrior.class = Some(ClassKind::Warrior);
    warrior.held_item = ItemKind::WoodenShovel;
    let mut players = vec![warrior];
    let mut projectiles: Vec<Projectile> = Vec::new();
    let triggers: Vec<ClassTrigger> = Vec::new();
    let target = LatticePos::new(1, 60, 0);
    let digs = vec![DiggingEvent { client: 1, position: target }];
    tick(
        0,
        &mut players,
        &mut projectiles,
        &mut grid,
        &mut floor,
        &triggers,
        &digs,
        &no_items(),
        &no_blocks(),
        &no_melee(),
    );
    assert_eq!(grid.get(target), Some(Block::Air));
    // the one-tick self-throttle was granted and already counted down
    // within the same tick, so the next tick may dig again
    assert!(players[0].cooldown.is_none());
    let other = LatticePos::new(0, 60, 0);
    let digs2 = vec![DiggingEvent { client: 1, position: other }];
    tick(
        1,
        &mut players,
        &mut projectiles,
        &mut grid,
        &mut floor,
        &triggers,
        &digs2,
        &no_items(),
        &no_blocks(),
        &no_melee(),
    );
    assert_eq!(grid.get(other), Some(Block::Air));
}

#[test]
fn one_tick_shot_spawns_and_moves_the_arrow() {
    let (mut grid, mut floor) = small_world();
    let mut archer = Player::join(2, Vec3Milli::new(0, 61000, 0), Vec3Milli::new(0, 0, 1000));
    archer.stage = Stage::Arena;
    archer.class = Some(ClassKind::Archer);
    archer.held_item = ItemKind::Bow;
    let mut players = vec![archer];
    let mut projectiles: Vec<Projectile> = Vec::new();
    let triggers: Vec<ClassTrigger> = Vec::new();
    let shots = vec![InteractItemEvent { client: 2 }];
    tick(
        0,
        &mut players,
        &mut projectiles,
        &mut grid,
        &mut floor,
        &triggers,
        &no_digs(),
        &shots,
        &no_blocks(),
        &no_melee(),
    );
    // spawned at the eye-line origin, then integrated once in the same
    // tick: gravity, drag, and a twentieth of the velocity
    assert_eq!(projectiles.len(), 1);
    assert_eq!(projectiles[0].vel, Vec3Milli::new(0, -990, 29700));
    assert_eq!(projectiles[0].pos, Vec3Milli::new(0, 62500 - 49, 1000 + 1485));
    // the five-tick cooldown lost one tick in the same pipeline run
    assert_eq!(players[0].cooldown, Some(Cooldown(4)));
}
