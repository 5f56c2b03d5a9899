use spleef::area::Area;
use spleef::block::{Block, WoolColor};
use spleef::floor::{
    break_blocks_under_player, create_arena_blocks, destroy_broken_blocks,
    send_breaking_state, BreakingState, MAX_HP,
};
use spleef::geom::{LatticePos, Vec3Milli};
use spleef::grid::VoxelGrid;
use spleef::player::{Player, Stage};

fn stander(id: u64, pos: Vec3Milli) -> Player {
    let mut p = Player::join(id, pos, Vec3Milli::new(0, 0, 1000));
    p.stage = Stage::Arena;
    p.class = Some(spleef::classes::ClassKind::Warrior);
    p.on_ground = true;
    p
}

fn floor_grid() -> VoxelGrid {
    VoxelGrid::from_cells(vec![
        (LatticePos::new(0, 60, 0), Block::Wool(WoolColor::White)),
        (LatticePos::new(1, 60, 0), Block::Wool(WoolColor::Red)),
        (LatticePos::new(2, 60, 0), Block::Solid),
        (LatticePos::new(0, 61, 0), Block::Air),
    ])
}

#[test]
fn destroy_stage_full_health_shows_sentinel() {
    assert_eq!(BreakingState { hp: MAX_HP }.destroy_stage(), 10);
}

#[test]
fn destroy_stage_first_cracks_appear_below_ninety_percent() {
    assert_eq!(BreakingState { hp: 91 }.destroy_stage(), 10);
    assert_eq!(BreakingState { hp: 90 }.destroy_stage(), 0);
}

#[test]
fn destroy_stage_last_crack_index_near_zero() {
    assert_eq!(BreakingState { hp: 9 }.destroy_stage(), 9);
    assert_eq!(BreakingState { hp: 1 }.destroy_stage(), 9);
    // at zero the formula wraps back onto the sentinel; such a cell is
    // destroyed the same tick and never shown
    assert_eq!(BreakingState { hp: 0 }.destroy_stage(), 10);
    assert_eq!(BreakingState { hp: -5 }.destroy_stage(), 10);
}

#[test]
fn arena_blocks_register_every_destructible_cell() {
    let grid = floor_grid();
    let area = Area::new(LatticePos::new(-10, 0, -10), LatticePos::new(10, 100, 10));
    let floor = create_arena_blocks(&grid, &area);
    assert_eq!(floor.cell_count(), 2);
    for i in 0..floor.cell_count() {
        let c = floor.cell_at(i);
        assert_eq!(c.state.hp, MAX_HP);
        assert!(!c.changed);
    }
}

#[test]
fn footstep_damage_drains_the_cell_below() {
    let grid = floor_grid();
    let area = Area::new(LatticePos::new(-10, 0, -10), LatticePos::new(10, 100, 10));
    let mut floor = create_arena_blocks(&grid, &area);
    // feet at y = 61: the cell one unit below is (0, 60, 0)
    let players = vec![stander(1, Vec3Milli::new(500, 61000, 500))];
    break_blocks_under_player(&players, &mut floor);
    let mut seen = false;
    for i in 0..floor.cell_count() {
        let c = floor.cell_at(i);
        if c.pos == LatticePos::new(0, 60, 0) {
            assert_eq!(c.state.hp, MAX_HP - 1);
            assert!(c.changed);
            seen = true;
        } else {
            assert_eq!(c.state.hp, MAX_HP);
            assert!(!c.changed);
        }
    }
    assert!(seen);
}

#[test]
fn two_players_on_one_cell_drain_it_twice_per_tick() {
    let grid = floor_grid();
    let area = Area::new(LatticePos::new(-10, 0, -10), LatticePos::new(10, 100, 10));
    let mut floor = create_arena_blocks(&grid, &area);
    let players = vec![
        stander(1, Vec3Milli::new(500, 61000, 500)),
        stander(2, Vec3Milli::new(400, 61000, 600)),
    ];
    break_blocks_under_player(&players, &mut floor);
    for i in 0..floor.cell_count() {
        let c = floor.cell_at(i);
        if c.pos == LatticePos::new(0, 60, 0) {
            assert_eq!(c.state.hp, MAX_HP - 2);
        }
    }
}

#[test]
fn airborne_and_lobby_players_do_no_damage() {
    let grid = floor_grid();
    let area = Area::new(LatticePos::new(-10, 0, -10), LatticePos::new(10, 100, 10));
    let mut floor = create_arena_blocks(&grid, &area);
    let mut airborne = stander(1, Vec3Milli::new(500, 61000, 500));
    airborne.on_ground = false;
    let lobby = Player::join(2, Vec3Milli::new(500, 61000, 500), Vec3Milli::new(0, 0, 1000));
    let players = vec![airborne, lobby];
    break_blocks_under_player(&players, &mut floor);
    for i in 0..floor.cell_count() {
        assert_eq!(floor.cell_at(i).state.hp, MAX_HP);
    }
}

#[test]
fn drained_cell_is_destroyed_and_voxel_cleared() {
    let mut grid = floor_grid();
    let area = Area::new(LatticePos::new(-10, 0, -10), LatticePos::new(10, 100, 10));
    let mut floor = create_arena_blocks(&grid, &area);
    let players = vec![stander(1, Vec3Milli::new(500, 61000, 500))];
    let worn = LatticePos::new(0, 60, 0);
    for _ in 0..MAX_HP {
        break_blocks_under_player(&players, &mut floor);
        destroy_broken_blocks(&mut grid, &mut floor);
        send_breaking_state(&mut floor);
    }
    // after five seconds of standing the cell is gone from grid and
    // tracker; the untouched cell survives
    assert_eq!(grid.get(worn), Some(Block::Air));
    assert_eq!(floor.cell_count(), 1);
    assert_eq!(floor.cell_at(0).pos, LatticePos::new(1, 60, 0));
}

#[test]
fn breaking_report_lists_only_changed_cells_once() {
    let grid = floor_grid();
    let area = Area::new(LatticePos::new(-10, 0, -10), LatticePos::new(10, 100, 10));
    let mut floor = create_arena_blocks(&grid, &area);
    let players = vec![stander(1, Vec3Milli::new(500, 61000, 500))];
    break_blocks_under_player(&players, &mut floor);
    let report = send_breaking_state(&mut floor);
    assert_eq!(report.len(), 1);
    assert_eq!(report[0].0, LatticePos::new(0, 60, 0));
    // one hit point down from full still shows the sentinel stage
    assert_eq!(report[0].1, 10);
    // the change was consumed: nothing further to broadcast
    let report2 = send_breaking_state(&mut floor);
    assert!(report2.is_empty());
}
