use catan_board::board::Board;
use catan_board::common::{IntToResourceType, ResourceType};
use catan_board::coords::{Axial, Cube, FracAxial, WorldPos};

#[test]
fn int_to_resource_type_numbers() {
    assert_eq!(IntToResourceType(1), ResourceType::Wood);
    assert_eq!(IntToResourceType(2), ResourceType::Stone);
    assert_eq!(IntToResourceType(3), ResourceType::Brick);
    assert_eq!(IntToResourceType(4), ResourceType::Sheep);
    assert_eq!(IntToResourceType(5), ResourceType::Wheat);
    assert_eq!(IntToResourceType(0), ResourceType::Nothing);
    assert_eq!(IntToResourceType(6), ResourceType::Nothing);
    assert_eq!(IntToResourceType(-1), ResourceType::Nothing);
}

#[test]
fn tile_from_rolls_desert_and_resources() {
    let center = Board::tileFromRolls(0, 0, 3, 2, 5);
    assert_eq!(center.resource, ResourceType::Nothing);
    assert_eq!(center.dice_num, 7);
    assert!(center.has_robber);
    let other = Board::tileFromRolls(1, -1, 3, 6, 6);
    assert_eq!(other.resource, ResourceType::Brick);
    assert_eq!(other.dice_num, 12);
    assert!(!other.has_robber);
}

#[test]
fn hex_center_round_trip_within_radius() {
    for q in -2i32..=2 {
        for r in -2i32..=2 {
            if (q.abs() + r.abs() + (q + r).abs()) / 2 > 2 {
                continue;
            }
            let w = Board::hexAxialToWorld(q, r);
            let f = Board::worldToAxialFractional(w);
            assert_eq!(Board::hexAxialRound(f), Axial { q, r });
        }
    }
}

#[test]
fn hex_center_world_positions() {
    assert_eq!(Board::hexAxialToWorld(0, 0), WorldPos { x: 0, z: 0 });
    assert_eq!(Board::hexAxialToWorld(1, 0), WorldPos { x: 0, z: 4000 });
    assert_eq!(Board::hexAxialToWorld(0, 1), WorldPos { x: 6000, z: 2000 });
    assert_eq!(Board::hexAxialToWorld(1, -1), WorldPos { x: -6000, z: 2000 });
}

#[test]
fn fractional_axial_of_world_point() {
    assert_eq!(
        Board::worldToAxialFractional(WorldPos { x: -3000, z: 1000 }),
        FracAxial { q: 6000, r: -6000 }
    );
}

#[test]
fn axial_round_exact_and_near_boundary() {
    assert_eq!(Board::hexAxialRound(FracAxial { q: 24000, r: -12000 }), Axial { q: 2, r: -1 });
    // a side midpoint: halves round away from zero, the larger error is fixed
    assert_eq!(Board::hexAxialRound(FracAxial { q: 6000, r: -6000 }), Axial { q: 1, r: -1 });
    // near the corner between three hexes, rounding each coordinate alone
    // would give (0, -1), which is not the nearest hex
    assert_eq!(Board::hexAxialRound(FracAxial { q: 4400, r: -7000 }), Axial { q: 0, r: 0 });
    assert_eq!(Board::hexAxialRound(FracAxial { q: 5000, r: 5000 }), Axial { q: 0, r: 1 });
}

#[test]
fn cube_coordinates_and_distance() {
    let c = Board::hexToCube(1, -2);
    assert_eq!(c, Cube { x: 1, y: 1, z: -2 });
    assert_eq!(c.x + c.y + c.z, 0);
    assert_eq!(Board::cubeToDist(c), 2);
    assert_eq!(Board::cubeToDist(Board::hexToCube(0, 0)), 0);
    assert_eq!(Board::cubeToDist(Board::hexToCube(-3, 1)), 3);
}

#[test]
fn corner_and_side_positions() {
    let o = WorldPos { x: 0, z: 0 };
    assert_eq!(Board::getCorners(o, 0), WorldPos { x: 4000, z: 0 });
    assert_eq!(Board::getCorners(o, 1), WorldPos { x: 2000, z: 2000 });
    assert_eq!(Board::getCorners(o, 3), WorldPos { x: -4000, z: 0 });
    assert_eq!(Board::getCorners(o, 5), WorldPos { x: 2000, z: -2000 });
    assert_eq!(Board::getEdges(o, 0), WorldPos { x: 3000, z: -1000 });
    assert_eq!(Board::getEdges(o, 2), WorldPos { x: 0, z: 2000 });
    assert_eq!(Board::getEdges(o, 3), WorldPos { x: -3000, z: 1000 });
}

#[test]
fn offset_tables_and_their_inverses() {
    let vq = [0, 0, 1, 0, 0, -1];
    let vr = [0, 1, -1, 0, -1, 1];
    let eq = [-1, 0, 0, 0, 0, -1];
    let er = [1, 1, 0, 0, 0, 0];
    for i in 0i8..6 {
        assert_eq!(Board::vertexQOffsetFromI(i), vq[i as usize]);
        assert_eq!(Board::vertexROffsetFromI(i), vr[i as usize]);
        assert_eq!(Board::edgeQOffsetFromI(i), eq[i as usize]);
        assert_eq!(Board::edgeROffsetFromI(i), er[i as usize]);
        assert_eq!(
            Board::vertexIFromOffset(vq[i as usize] as i64, vr[i as usize] as i64, i % 2 == 0),
            Some(i)
        );
        let north = i == 0 || i == 3;
        let west = i == 2 || i == 5;
        let east = i == 1 || i == 4;
        assert_eq!(
            Board::edgeIFromOffset(eq[i as usize] as i64, er[i as usize] as i64, north, west, east),
            Some(i)
        );
    }
    assert_eq!(Board::vertexIFromOffset(2, 0, true), None);
    assert_eq!(Board::vertexIFromOffset(0, 1, true), None);
    assert_eq!(Board::edgeIFromOffset(1, 1, true, false, false), None);
}

#[test]
fn shared_corner_has_one_cube() {
    let a = Board::vertexToCube(0, 0, 0);
    let b = Board::vertexToCube(2, -1, 1);
    let c = Board::vertexToCube(4, 0, 1);
    assert_eq!(a, Cube { x: -1, y: -1, z: 2 });
    assert_eq!(a, b);
    assert_eq!(a, c);
    let e = Board::edgeToCube(3, 0, 0);
    assert_eq!(e, Cube { x: 1, y: 0, z: -1 });
    assert_eq!(e, Board::edgeToCube(0, 1, -1));
}
