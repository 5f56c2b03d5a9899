use spleef::area::Area;
use spleef::block::{Block, WoolColor};
use spleef::classes::ClassKind;
use spleef::geom::{LatticePos, Vec3Milli};
use spleef::grid::VoxelGrid;
use spleef::level::{
    class_display_text, create_class_text, create_class_trigger, do_class_triggers,
    keep_position_while_chunks_loading, move_to_arena, update_changed_chunk_layer_timer,
    update_inventory_while_chunks_loading, ClassTrigger,
};
use spleef::nbt::{extract_text_from_sign_nbt, Nbt};
use spleef::player::{ChunksLoading, KeepPosition, Player, Stage, LOADING_TICKS};

fn lobby(id: u64, pos: Vec3Milli) -> Player {
    Player::join(id, pos, Vec3Milli::new(0, 0, 1000))
}

fn trigger(class: ClassKind, min: (i32, i32, i32), max: (i32, i32, i32)) -> ClassTrigger {
    ClassTrigger {
        area: Area::new(
            LatticePos::new(min.0, min.1, min.2),
            LatticePos::new(max.0, max.1, max.2),
        ),
        class,
    }
}

fn sign_payload(text: &str) -> Nbt {
    Nbt::Compound(vec![(
        "front_text".to_string(),
        Nbt::Compound(vec![(
            "messages".to_string(),
            Nbt::List(vec![Nbt::Str(text.to_string())]),
        )]),
    )])
}

#[test]
fn entering_a_trigger_assigns_the_class_once() {
    let t_archer = trigger(ClassKind::Archer, (0, 60, 0), (3, 64, 3));
    let t_mage = trigger(ClassKind::Mage, (0, 60, 0), (3, 64, 3));
    let mut players = vec![lobby(1, Vec3Milli::new(1500, 61000, 1500))];
    do_class_triggers(&mut players, &t_archer);
    assert_eq!(players[0].stage, Stage::ClassPicked);
    assert_eq!(players[0].class, Some(ClassKind::Archer));
    assert!(players[0].fresh_class);
    assert!(players[0].combat.is_some());
    // a later overlapping trigger never reassigns
    do_class_triggers(&mut players, &t_mage);
    assert_eq!(players[0].class, Some(ClassKind::Archer));
}

#[test]
fn outside_the_trigger_nothing_happens() {
    let t = trigger(ClassKind::Rogue, (0, 60, 0), (3, 64, 3));
    let mut players = vec![lobby(1, Vec3Milli::new(9000, 61000, 9000))];
    do_class_triggers(&mut players, &t);
    assert_eq!(players[0].stage, Stage::Lobby);
    assert!(players[0].class.is_none());
}

#[test]
fn move_to_arena_opens_the_grace_window() {
    let t = trigger(ClassKind::Warrior, (0, 60, 0), (3, 64, 3));
    let mut players = vec![lobby(7, Vec3Milli::new(500, 61000, 500))];
    do_class_triggers(&mut players, &t);
    let notices = move_to_arena(&mut players);
    assert_eq!(players[0].stage, Stage::Arena);
    assert_eq!(players[0].pos, Vec3Milli::new(0, 61000, 0));
    assert_eq!(players[0].loading, Some(ChunksLoading { timer: LOADING_TICKS }));
    assert_eq!(
        players[0].keep_position,
        Some(KeepPosition(Vec3Milli::new(0, 61000, 0)))
    );
    assert_eq!(notices, vec![(7, ClassKind::Warrior)]);
}

#[test]
fn grace_window_pins_position_and_dirties_inventory() {
    let t = trigger(ClassKind::Warrior, (0, 60, 0), (3, 64, 3));
    let mut players = vec![lobby(7, Vec3Milli::new(500, 61000, 500))];
    do_class_triggers(&mut players, &t);
    move_to_arena(&mut players);
    // physics drift during loading is snapped back
    players[0].pos = Vec3Milli::new(4000, 60000, -2000);
    keep_position_while_chunks_loading(&mut players);
    assert_eq!(players[0].pos, Vec3Milli::new(0, 61000, 0));
    update_inventory_while_chunks_loading(&mut players);
    assert_eq!(players[0].inventory_changed, u64::MAX);
}

#[test]
fn timer_expiry_releases_pin_and_timer_together() {
    let t = trigger(ClassKind::Warrior, (0, 60, 0), (3, 64, 3));
    let mut players = vec![lobby(7, Vec3Milli::new(500, 61000, 500))];
    do_class_triggers(&mut players, &t);
    move_to_arena(&mut players);
    for step in 0..LOADING_TICKS {
        assert!(players[0].loading.is_some());
        assert!(players[0].keep_position.is_some());
        update_changed_chunk_layer_timer(&mut players);
        if step < LOADING_TICKS - 1 {
            assert_eq!(
                players[0].loading,
                Some(ChunksLoading { timer: LOADING_TICKS - 1 - step })
            );
        }
    }
    assert!(players[0].loading.is_none());
    assert!(players[0].keep_position.is_none());
    // once released, the participant moves freely again
    players[0].pos = Vec3Milli::new(4000, 60000, -2000);
    keep_position_while_chunks_loading(&mut players);
    assert_eq!(players[0].pos, Vec3Milli::new(4000, 60000, -2000));
}

#[test]
fn class_triggers_derived_from_marker_blocks() {
    let grid = VoxelGrid::from_cells(vec![
        (LatticePos::new(0, 60, 0), Block::Wool(WoolColor::LightGray)),
        (LatticePos::new(1, 60, 2), Block::Wool(WoolColor::LightGray)),
        (LatticePos::new(5, 60, 0), Block::Wool(WoolColor::Orange)),
        (LatticePos::new(10, 60, 0), Block::Wool(WoolColor::Red)),
        (LatticePos::new(15, 60, 0), Block::Wool(WoolColor::LightBlue)),
        (LatticePos::new(20, 60, 0), Block::Wool(WoolColor::Pink)),
    ]);
    let area = Area::new(LatticePos::new(-50, 50, -50), LatticePos::new(50, 80, 50));
    let triggers = create_class_trigger(&grid, &area).expect("all four markers present");
    assert_eq!(triggers.len(), 4);
    // the warrior trigger spans both light gray markers, expanded
    // three units upward
    assert_eq!(triggers[0].class, ClassKind::Warrior);
    assert_eq!(triggers[0].area.min(), LatticePos::new(0, 60, 0));
    assert_eq!(triggers[0].area.max(), LatticePos::new(1, 63, 2));
    assert_eq!(triggers[1].class, ClassKind::Archer);
    assert_eq!(triggers[1].area.min(), LatticePos::new(5, 60, 0));
    assert_eq!(triggers[1].area.max(), LatticePos::new(5, 63, 0));
    assert_eq!(triggers[2].class, ClassKind::Mage);
    assert_eq!(triggers[3].class, ClassKind::Rogue);
}

#[test]
fn missing_marker_is_fatal_at_setup() {
    let grid = VoxelGrid::from_cells(vec![
        (LatticePos::new(0, 60, 0), Block::Wool(WoolColor::LightGray)),
        (LatticePos::new(5, 60, 0), Block::Wool(WoolColor::Orange)),
        (LatticePos::new(10, 60, 0), Block::Wool(WoolColor::Red)),
    ]);
    let area = Area::new(LatticePos::new(-50, 50, -50), LatticePos::new(50, 80, 50));
    assert!(create_class_trigger(&grid, &area).is_none());
}

#[test]
fn sign_text_extraction_reads_the_first_message() {
    let payload = sign_payload("warrior");
    assert_eq!(extract_text_from_sign_nbt(&payload), Some("warrior".to_string()));
    let malformed = Nbt::Compound(vec![("front_text".to_string(), Nbt::Other)]);
    assert_eq!(extract_text_from_sign_nbt(&malformed), None);
    let empty = Nbt::Compound(vec![(
        "front_text".to_string(),
        Nbt::Compound(vec![("messages".to_string(), Nbt::List(vec![]))]),
    )]);
    assert_eq!(extract_text_from_sign_nbt(&empty), None);
}

#[test]
fn class_signs_become_floating_labels() {
    let mut grid = VoxelGrid::from_cells(vec![
        (LatticePos::new(2, 61, 3), Block::Sign),
        (LatticePos::new(4, 61, 3), Block::Sign),
        (LatticePos::new(6, 61, 3), Block::Sign),
    ]);
    let area = Area::new(LatticePos::new(-50, 50, -50), LatticePos::new(50, 80, 50));
    let signs = vec![
        (LatticePos::new(2, 61, 3), sign_payload("mage")),
        // unrelated text is skipped and the sign kept
        (LatticePos::new(4, 61, 3), sign_payload("rules")),
        // malformed payload is skipped silently
        (LatticePos::new(6, 61, 3), Nbt::Other),
    ];
    let labels = create_class_text(&mut grid, &area, &signs);
    assert_eq!(labels.len(), 1);
    assert_eq!(labels[0].class, ClassKind::Mage);
    // the label floats half a cell east and half a cell north of the
    // sign's cell corner
    assert_eq!(labels[0].pos, Vec3Milli::new(2500, 61000, 2500));
    assert_eq!(grid.get(LatticePos::new(2, 61, 3)), Some(Block::Air));
    assert_eq!(grid.get(LatticePos::new(4, 61, 3)), Some(Block::Sign));
    assert_eq!(grid.get(LatticePos::new(6, 61, 3)), Some(Block::Sign));
}

#[test]
fn display_text_per_class() {
    assert_eq!(class_display_text(ClassKind::Warrior), "Warrior Class");
    assert_eq!(class_display_text(ClassKind::Archer), "Archer Class");
    assert_eq!(class_display_text(ClassKind::Mage), "Mage Class");
    assert_eq!(class_display_text(ClassKind::Rogue), "Rogue Class");
}
