use spleef::area::{block_pos_max, block_pos_min, Area, ChunkPos};
use spleef::geom::{cell_of, LatticePos, Vec3Milli};

fn pos(x: i32, y: i32, z: i32) -> LatticePos {
    LatticePos::new(x, y, z)
}

#[test]
fn area_new_normalises_corners() {
    let a = pos(3, 9, -2);
    let b = pos(-5, 1, 4);
    let r = Area::new(a, b);
    assert_eq!(r.min(), pos(-5, 1, -2));
    assert_eq!(r.max(), pos(3, 9, 4));
    assert!(r.min().x <= r.max().x && r.min().y <= r.max().y && r.min().z <= r.max().z);
}

#[test]
fn area_contains_both_corners_in_any_order() {
    let a = pos(7, -3, 11);
    let b = pos(-2, 8, -6);
    assert!(Area::new(a, b).contains(a));
    assert!(Area::new(a, b).contains(b));
    assert!(Area::new(b, a).contains(a));
    assert!(Area::new(b, a).contains(b));
}

#[test]
fn area_contains_is_inclusive_and_rejects_outside() {
    let r = Area::new(pos(0, 0, 0), pos(2, 2, 2));
    assert!(r.contains(pos(0, 0, 0)));
    assert!(r.contains(pos(2, 2, 2)));
    assert!(r.contains(pos(1, 2, 0)));
    assert!(!r.contains(pos(3, 1, 1)));
    assert!(!r.contains(pos(1, -1, 1)));
}

#[test]
fn expand_then_shrink_restores_region() {
    let r = Area::new(pos(-4, 2, 1), pos(5, 6, 9));
    let deltas = [
        pos(0, 3, 0),
        pos(-2, 3, 1),
        pos(4, -1, -7),
        pos(0, 0, 0),
        pos(-9, -9, -9),
    ];
    for d in deltas {
        assert_eq!(r.expand(d).shrink(d), r);
    }
}

#[test]
fn expand_moves_one_face_per_axis() {
    let r = Area::new(pos(0, 0, 0), pos(1, 1, 1));
    let grown = r.expand(pos(-2, 3, 0));
    assert_eq!(grown.min(), pos(-2, 0, 0));
    assert_eq!(grown.max(), pos(1, 4, 1));
}

#[test]
fn merge_is_commutative_associative_idempotent() {
    let a = Area::new(pos(0, 0, 0), pos(2, 2, 2));
    let b = Area::new(pos(-3, 1, 1), pos(1, 5, 1));
    let c = Area::new(pos(4, -2, 0), pos(6, 0, 3));
    assert_eq!(a.merge(&b), b.merge(&a));
    assert_eq!(a.merge(&b).merge(&c), a.merge(&b.merge(&c)));
    assert_eq!(a.merge(&a), a);
    let m = a.merge(&b);
    assert_eq!(m.min(), pos(-3, 0, 0));
    assert_eq!(m.max(), pos(2, 5, 2));
}

#[test]
fn block_pos_min_max_componentwise() {
    let a = pos(1, 9, -4);
    let b = pos(3, -2, -1);
    assert_eq!(block_pos_min(a, b), pos(1, -2, -4));
    assert_eq!(block_pos_max(a, b), pos(3, 9, -1));
}

#[test]
fn iter_block_pos_enumerates_volume_once() {
    let r = Area::new(pos(0, 0, 0), pos(2, 1, 1));
    let cells = r.iter_block_pos();
    assert_eq!(cells.len(), 3 * 2 * 2);
    assert!(cells.contains(&pos(0, 0, 0)));
    assert!(cells.contains(&pos(2, 1, 1)));
    assert!(cells.contains(&pos(1, 0, 1)));
    for (i, c) in cells.iter().enumerate() {
        assert!(r.contains(*c));
        for d in cells.iter().skip(i + 1) {
            assert_ne!(c, d);
        }
    }
}

#[test]
fn iter_block_pos_empty_when_degenerate() {
    let r = Area { min: pos(2, 0, 0), max: pos(0, 5, 5) };
    assert_eq!(r.iter_block_pos().len(), 0);
}

#[test]
fn iter_block_pos_plane_covers_columns() {
    let r = Area::new(pos(-1, 3, 0), pos(1, 9, 1));
    let cols = r.iter_block_pos_plane();
    assert_eq!(cols.len(), 3 * 2);
    assert!(cols.contains(&(-1, 0)));
    assert!(cols.contains(&(1, 1)));
}

#[test]
fn iter_chunk_pos_floors_to_chunks() {
    let r = Area::new(pos(-1, 0, 0), pos(17, 0, 15));
    let chunks = r.iter_chunk_pos();
    assert_eq!(chunks.len(), 3);
    assert!(chunks.contains(&ChunkPos { x: -1, z: 0 }));
    assert!(chunks.contains(&ChunkPos { x: 0, z: 0 }));
    assert!(chunks.contains(&ChunkPos { x: 1, z: 0 }));
}

#[test]
fn floor_div_rounds_toward_negative_infinity() {
    assert_eq!(spleef::geom::floor_div(7, 2), 3);
    assert_eq!(spleef::geom::floor_div(-7, 2), -4);
    assert_eq!(spleef::geom::floor_div(-8, 2), -4);
    assert_eq!(spleef::geom::floor_div(0, 5), 0);
}

#[test]
fn cell_of_floors_each_axis() {
    assert_eq!(cell_of(Vec3Milli::new(500, 61000, -500)), pos(0, 61, -1));
    assert_eq!(cell_of(Vec3Milli::new(-1, 999, 1000)), pos(-1, 0, 1));
}
