use spleef::block::{Block, WoolColor};
use spleef::classes::{archer_shoot, mage_shoot, Cooldown, ClassKind, ItemKind};
use spleef::events::{InteractBlockEvent, InteractItemEvent};
use spleef::geom::{LatticePos, Vec3Milli};
use spleef::grid::VoxelGrid;
use spleef::player::{Player, Stage};
use spleef::projectile::{
    arrow_intersection, arrow_movement, arrow_oob, fireball_intersection, fireball_movement,
    fireball_oob, purge_despawned, Projectile, ProjectileKind,
};

fn shooter(id: u64, class: ClassKind, item: ItemKind) -> Player {
    let mut p = Player::join(id, Vec3Milli::new(0, 61000, 0), Vec3Milli::new(0, 0, 1000));
    p.stage = Stage::Arena;
    p.class = Some(class);
    p.held_item = item;
    p
}

fn arrow_at(pos: Vec3Milli, vel: Vec3Milli) -> Projectile {
    Projectile {
        owner: 1,
        kind: ProjectileKind::Arrow,
        pos,
        vel,
        gravity_disabled: false,
        despawned: false,
    }
}

fn fireball_at(pos: Vec3Milli, vel: Vec3Milli) -> Projectile {
    Projectile {
        owner: 1,
        kind: ProjectileKind::Fireball,
        pos,
        vel,
        gravity_disabled: true,
        despawned: false,
    }
}

#[test]
fn arrow_from_rest_takes_gravity_and_drag() {
    let start = Vec3Milli::new(0, 2000, 0);
    let mut projectiles = vec![arrow_at(start, Vec3Milli::new(0, 0, 0))];
    arrow_movement(&mut projectiles);
    // the gravity impulse alone is one full unit; drag then shaves one
    // percent off, and the position moves by a twentieth of the result
    assert_eq!(projectiles[0].vel, Vec3Milli::new(0, -990, 0));
    assert_eq!(projectiles[0].pos, Vec3Milli::new(0, 2000 - 49, 0));
}

#[test]
fn fireball_flies_straight_without_gravity() {
    let start = Vec3Milli::new(0, 2000, 0);
    let mut projectiles = vec![fireball_at(start, Vec3Milli::new(30000, 0, 0))];
    fireball_movement(&mut projectiles);
    assert_eq!(projectiles[0].vel, Vec3Milli::new(30000, 0, 0));
    assert_eq!(projectiles[0].pos, Vec3Milli::new(1500, 2000, 0));
}

#[test]
fn arrow_out_of_bounds_despawns_without_a_hit() {
    let mut projectiles = vec![
        arrow_at(Vec3Milli::new(0, 501_500, 0), Vec3Milli::new(0, 0, 0)),
        arrow_at(Vec3Milli::new(0, 400_000, 0), Vec3Milli::new(0, 0, 0)),
        arrow_at(Vec3Milli::new(101_000, 5000, 0), Vec3Milli::new(0, 0, 0)),
    ];
    arrow_oob(&mut projectiles);
    assert!(projectiles[0].despawned);
    assert!(!projectiles[1].despawned);
    assert!(projectiles[2].despawned);
    purge_despawned(&mut projectiles);
    assert_eq!(projectiles.len(), 1);
}

#[test]
fn fireball_bounds_are_lower_than_arrow_bounds() {
    let mut projectiles = vec![
        fireball_at(Vec3Milli::new(0, 400_000, 0), Vec3Milli::new(0, 0, 0)),
        fireball_at(Vec3Milli::new(0, 99_000, 0), Vec3Milli::new(0, 0, 0)),
    ];
    fireball_oob(&mut projectiles);
    assert!(projectiles[0].despawned);
    assert!(!projectiles[1].despawned);
}

#[test]
fn arrow_clears_the_first_destructible_cell_it_samples() {
    let target = LatticePos::new(0, -1, 0);
    let mut grid = VoxelGrid::from_cells(vec![(target, Block::Wool(WoolColor::Lime))]);
    let mut projectiles = vec![arrow_at(
        Vec3Milli::new(500, 500, 500),
        Vec3Milli::new(0, -30000, 0),
    )];
    arrow_intersection(&mut projectiles, &mut grid);
    assert_eq!(grid.get(target), Some(Block::Air));
    assert!(projectiles[0].despawned);
}

#[test]
fn arrow_despawns_on_solid_hit_but_leaves_it_standing() {
    let target = LatticePos::new(0, -1, 0);
    let mut grid = VoxelGrid::from_cells(vec![(target, Block::Solid)]);
    let mut projectiles = vec![arrow_at(
        Vec3Milli::new(500, 500, 500),
        Vec3Milli::new(0, -30000, 0),
    )];
    arrow_intersection(&mut projectiles, &mut grid);
    assert_eq!(grid.get(target), Some(Block::Solid));
    assert!(projectiles[0].despawned);
}

#[test]
fn arrow_misses_when_every_sample_is_air() {
    let far = LatticePos::new(50, 50, 50);
    let mut grid = VoxelGrid::from_cells(vec![(far, Block::Wool(WoolColor::Red))]);
    let mut projectiles = vec![arrow_at(
        Vec3Milli::new(500, 500, 500),
        Vec3Milli::new(0, -30000, 0),
    )];
    // the sampled path never enters a covered cell
    arrow_intersection(&mut projectiles, &mut grid);
    assert_eq!(grid.get(far), Some(Block::Wool(WoolColor::Red)));
    assert!(!projectiles[0].despawned);
}

#[test]
fn fireball_detonation_clears_hit_cell_and_destructible_faces() {
    let c = LatticePos::new(0, 0, 0);
    let east = LatticePos::new(1, 0, 0);
    let south = LatticePos::new(0, 0, 1);
    let west = LatticePos::new(-1, 0, 0);
    let below = LatticePos::new(0, -1, 0);
    let far = LatticePos::new(2, 0, 0);
    let mut grid = VoxelGrid::from_cells(vec![
        (c, Block::Wool(WoolColor::White)),
        (east, Block::Wool(WoolColor::Blue)),
        (south, Block::Wool(WoolColor::Green)),
        (west, Block::Solid),
        (below, Block::Solid),
        (far, Block::Wool(WoolColor::Pink)),
    ]);
    let mut projectiles = vec![fireball_at(
        Vec3Milli::new(500, 1500, 500),
        Vec3Milli::new(0, -30000, 0),
    )];
    fireball_intersection(&mut projectiles, &mut grid);
    // the hit cell and its two destructible faces clear; the solid
    // faces and the diagonal cell stay
    assert_eq!(grid.get(c), Some(Block::Air));
    assert_eq!(grid.get(east), Some(Block::Air));
    assert_eq!(grid.get(south), Some(Block::Air));
    assert_eq!(grid.get(west), Some(Block::Solid));
    assert_eq!(grid.get(below), Some(Block::Solid));
    assert_eq!(grid.get(far), Some(Block::Wool(WoolColor::Pink)));
    assert!(projectiles[0].despawned);
}

#[test]
fn archer_fires_one_arrow_per_tick_with_cooldown() {
    let mut players = vec![shooter(1, ClassKind::Archer, ItemKind::Bow)];
    let mut projectiles: Vec<Projectile> = Vec::new();
    let events = vec![InteractItemEvent { client: 1 }, InteractItemEvent { client: 1 }];
    archer_shoot(&mut players, &mut projectiles, &events);
    assert_eq!(projectiles.len(), 1);
    let arrow = projectiles[0];
    assert_eq!(arrow.kind, ProjectileKind::Arrow);
    assert!(!arrow.gravity_disabled);
    assert_eq!(arrow.owner, 1);
    // origin: feet + one and a half units up + the look direction
    assert_eq!(arrow.pos, Vec3Milli::new(0, 62500, 1000));
    // velocity: thirty times the look direction
    assert_eq!(arrow.vel, Vec3Milli::new(0, 0, 30000));
    assert_eq!(players[0].cooldown, Some(Cooldown(5)));
}

#[test]
fn archer_with_cooldown_never_fires() {
    let mut p = shooter(1, ClassKind::Archer, ItemKind::Bow);
    p.cooldown = Some(Cooldown(3));
    let mut players = vec![p];
    let mut projectiles: Vec<Projectile> = Vec::new();
    let events = vec![InteractItemEvent { client: 1 }];
    archer_shoot(&mut players, &mut projectiles, &events);
    assert!(projectiles.is_empty());
    assert_eq!(players[0].cooldown, Some(Cooldown(3)));
}

#[test]
fn mage_fires_from_item_or_block_interact_once() {
    let mut players = vec![shooter(1, ClassKind::Mage, ItemKind::FireworkRocket)];
    let mut projectiles: Vec<Projectile> = Vec::new();
    let item_events = vec![InteractItemEvent { client: 1 }];
    let block_events = vec![InteractBlockEvent { client: 1 }];
    mage_shoot(&mut players, &mut projectiles, &item_events, &block_events);
    assert_eq!(projectiles.len(), 1);
    let fireball = projectiles[0];
    assert_eq!(fireball.kind, ProjectileKind::Fireball);
    assert!(fireball.gravity_disabled);
    assert_eq!(fireball.vel, Vec3Milli::new(0, 0, 30000));
    assert_eq!(players[0].cooldown, Some(Cooldown(15)));
}

#[test]
fn mage_fires_from_block_interact_alone() {
    let mut players = vec![shooter(1, ClassKind::Mage, ItemKind::FireworkRocket)];
    let mut projectiles: Vec<Projectile> = Vec::new();
    let item_events: Vec<InteractItemEvent> = Vec::new();
    let block_events = vec![InteractBlockEvent { client: 1 }];
    mage_shoot(&mut players, &mut projectiles, &item_events, &block_events);
    assert_eq!(projectiles.len(), 1);
}

#[test]
fn wrong_item_in_hand_blocks_the_shot() {
    let mut players = vec![shooter(1, ClassKind::Archer, ItemKind::Empty)];
    let mut projectiles: Vec<Projectile> = Vec::new();
    let events = vec![InteractItemEvent { client: 1 }];
    archer_shoot(&mut players, &mut projectiles, &events);
    assert!(projectiles.is_empty());
    assert!(players[0].cooldown.is_none());
}
