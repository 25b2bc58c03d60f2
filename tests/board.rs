use catan_board::board::{Board, Vertex};
use catan_board::common::{PortData, ResourceType, SettlementData, SettlementTier};
use catan_board::coords::{Axial, WorldPos};
use catan_board::query::Address;

fn hex_dist(q: i32, r: i32) -> i32 {
    (q.abs() + r.abs() + (q + r).abs()) / 2
}

fn count_hexes(b: &Board) -> usize {
    let mut n = 0;
    for q in -8i32..=8 {
        for r in -8i32..=8 {
            if b.getHexFromAxial(Axial { q, r }).is_some() {
                n += 1;
            }
        }
    }
    n
}

fn all_vertices(b: &Board) -> Vec<(Axial, bool, Vertex)> {
    let mut out = Vec::new();
    for q in -8i32..=8 {
        for r in -8i32..=8 {
            for bottom in [false, true] {
                if let Some(v) = b.getVertexFromAxial(Axial { q, r }, bottom) {
                    out.push((Axial { q, r }, bottom, v));
                }
            }
        }
    }
    out
}

fn count_edges(b: &Board) -> usize {
    let mut n = 0;
    for q in -8i32..=8 {
        for r in -8i32..=8 {
            for (north, west, east) in [(true, false, false), (false, true, false), (false, false, true)] {
                if b.getEdgeFromAxial(Axial { q, r }, north, west, east).is_some() {
                    n += 1;
                }
            }
        }
    }
    n
}

#[test]
fn empty_board_has_no_sites() {
    let b = Board::create_new(2);
    assert_eq!(b.radius(), 2);
    assert_eq!(count_hexes(&b), 0);
    assert_eq!(all_vertices(&b).len(), 0);
    assert_eq!(count_edges(&b), 0);
    assert_eq!(b.ports().len(), 9);
    assert_eq!(b.port_vertices().len(), 18);
}

#[test]
fn lattice_sizes_follow_closed_forms() {
    for radius in 0u8..=4 {
        let b = Board::build(radius);
        let r = radius as usize;
        assert_eq!(count_hexes(&b), 3 * r * r + 3 * r + 1);
        assert_eq!(all_vertices(&b).len(), 6 * (r + 1) * (r + 1));
        assert_eq!(count_edges(&b), 3 * (r + 1) * (3 * r + 2));
    }
}

#[test]
fn hexes_exactly_within_cube_distance() {
    let b = Board::build(2);
    for q in -6i32..=6 {
        for r in -6i32..=6 {
            let h = b.getHexFromAxial(Axial { q, r });
            assert_eq!(h.is_some(), hex_dist(q, r) <= 2);
            if let Some(h) = h {
                assert_eq!(h.center_coordinates, Board::hexAxialToWorld(q, r));
            }
        }
    }
}

#[test]
fn tile_data_within_rules() {
    let b = Board::build(2);
    let mut dice = Vec::new();
    for q in -2i32..=2 {
        for r in -2i32..=2 {
            if let Some(h) = b.getHexFromAxial(Axial { q, r }) {
                let d = h.hex_data;
                assert!(d.dice_num >= 2 && d.dice_num <= 12);
                assert_eq!(d.has_robber, q == 0 && r == 0);
                if q == 0 && r == 0 {
                    assert_eq!(d.resource, ResourceType::Nothing);
                } else {
                    assert!(d.resource != ResourceType::Nothing && d.resource != ResourceType::Anything);
                    dice.push(d.dice_num);
                }
            }
        }
    }
    assert_eq!(dice.len(), 18);
    assert!(dice.iter().any(|&d| d != 2));
}

#[test]
fn every_corner_maps_to_one_vertex_at_its_position() {
    let b = Board::build(2);
    for q in -2i32..=2 {
        for r in -2i32..=2 {
            if hex_dist(q, r) > 2 {
                continue;
            }
            let center = Board::hexAxialToWorld(q, r);
            for i in 0i8..6 {
                let a = Axial {
                    q: q + Board::vertexQOffsetFromI(i) as i32,
                    r: r + Board::vertexROffsetFromI(i) as i32,
                };
                let v = b.getVertexFromAxial(a, i % 2 == 0).expect("corner vertex");
                assert_eq!(v.world_coordinates, Board::getCorners(center, i));
                assert_eq!(v.settlement_data, None);
                let e = Axial {
                    q: q + Board::edgeQOffsetFromI(i) as i32,
                    r: r + Board::edgeROffsetFromI(i) as i32,
                };
                let edge = b
                    .getEdgeFromAxial(e, i == 0 || i == 3, i == 2 || i == 5, i == 1 || i == 4)
                    .expect("side edge");
                assert_eq!(edge.world_coordinates, Board::getEdges(center, i));
                assert_eq!(edge.road_data, None);
            }
        }
    }
}

#[test]
fn ports_on_their_sites_only() {
    let b = Board::build(2);
    let ports: Vec<PortData> = b.ports().clone();
    let sites = b.port_vertices().clone();
    assert_eq!(ports[0], PortData { input: ResourceType::Wheat, num_inputs: 2 });
    assert_eq!(ports[1], PortData { input: ResourceType::Anything, num_inputs: 3 });
    for (j, s) in sites.iter().enumerate() {
        let v = b.getVertexFromAxial(s.axial_coordinates, s.is_bottom).expect("port vertex");
        assert_eq!(v.port_data, Some(ports[j / 2]));
    }
    let with_port = all_vertices(&b).iter().filter(|(_, _, v)| v.port_data.is_some()).count();
    assert_eq!(with_port, 18);
    let plain = b.getVertexFromAxial(Axial { q: 0, r: 0 }, false).unwrap();
    assert_eq!(plain.port_data, None);
}

#[test]
fn small_board_keeps_ports_that_fit() {
    let b = Board::build(0);
    assert_eq!(all_vertices(&b).iter().filter(|(_, _, v)| v.port_data.is_some()).count(), 0);
}

#[test]
fn vertex_neighbours_inside_and_on_rim() {
    let b = Board::build(2);
    assert_eq!(
        b.getVertexNeighbourAxials(Axial { q: 0, r: 0 }, false),
        vec![(Axial { q: 1, r: -2 }, true), (Axial { q: 0, r: -1 }, true), (Axial { q: 1, r: -1 }, true)]
    );
    assert_eq!(
        b.getVertexNeighbourAxials(Axial { q: 0, r: 0 }, true),
        vec![(Axial { q: -1, r: 2 }, false), (Axial { q: 0, r: 1 }, false), (Axial { q: -1, r: 1 }, false)]
    );
    assert_eq!(
        b.getVertexNeighbourAxials(Axial { q: 2, r: 1 }, false),
        vec![(Axial { q: 3, r: -1 }, true), (Axial { q: 2, r: 0 }, true)]
    );
    assert_eq!(b.getVertexNeighbourAxials(Axial { q: 6, r: 6 }, false), vec![]);
}

#[test]
fn vertex_touching_hexes_and_edges() {
    let b = Board::build(2);
    assert_eq!(
        b.getVertexTouchingHexAxials(Axial { q: 0, r: 0 }, false),
        vec![Axial { q: 1, r: -1 }, Axial { q: 0, r: 0 }, Axial { q: 0, r: -1 }]
    );
    assert_eq!(b.getVertexTouchingHexAxials(Axial { q: 2, r: 1 }, false), vec![Axial { q: 2, r: 0 }]);
    assert_eq!(
        b.getVertexProtrudingEdgeAxials(Axial { q: 0, r: 0 }, false),
        vec![
            (Axial { q: 0, r: -1 }, false, true, false),
            (Axial { q: 0, r: 0 }, true, false, false),
            (Axial { q: 0, r: 0 }, false, false, true),
        ]
    );
    assert_eq!(
        b.getVertexProtrudingEdgeAxials(Axial { q: 2, r: 1 }, false),
        vec![(Axial { q: 2, r: 0 }, false, true, false), (Axial { q: 2, r: 1 }, false, false, true)]
    );
    assert_eq!(
        b.getVertexProtrudingEdgeAxials(Axial { q: 0, r: 0 }, true),
        vec![
            (Axial { q: 0, r: 1 }, false, false, true),
            (Axial { q: -1, r: 1 }, false, true, false),
            (Axial { q: -1, r: 1 }, true, false, false),
        ]
    );
}

#[test]
fn edge_neighbours_and_endpoints() {
    let b = Board::build(2);
    assert_eq!(
        b.getEdgeNeighbouringEdgeAxials(Axial { q: 0, r: 0 }, true, false, false),
        vec![
            (Axial { q: 1, r: 0 }, false, false, true),
            (Axial { q: 0, r: 0 }, false, true, false),
            (Axial { q: 0, r: 0 }, false, false, true),
            (Axial { q: 0, r: -1 }, false, true, false),
        ]
    );
    assert_eq!(
        b.getEdgeEndPointAxials(Axial { q: 0, r: 0 }, true, false, false),
        vec![(Axial { q: 0, r: 0 }, false), (Axial { q: 1, r: -1 }, true)]
    );
    assert_eq!(
        b.getEdgeEndPointAxials(Axial { q: 0, r: 0 }, false, false, true),
        vec![(Axial { q: 0, r: -1 }, true), (Axial { q: 0, r: 0 }, false)]
    );
    assert_eq!(
        b.getEdgeEndPointAxials(Axial { q: 0, r: 0 }, false, true, false),
        vec![(Axial { q: 0, r: 1 }, false), (Axial { q: 1, r: -1 }, true)]
    );
}

#[test]
fn edge_ends_are_its_neighbouring_vertices() {
    let b = Board::build(2);
    for q in -3i32..=3 {
        for r in -3i32..=3 {
            for (n, w, e) in [(true, false, false), (false, true, false), (false, false, true)] {
                if b.getEdgeFromAxial(Axial { q, r }, n, w, e).is_none() {
                    continue;
                }
                let ends = b.getEdgeEndPointAxials(Axial { q, r }, n, w, e);
                assert_eq!(ends.len(), 2);
                let (a, ab) = ends[0];
                assert!(b.getVertexNeighbourAxials(a, ab).contains(&ends[1]));
                assert!(b.getVertexProtrudingEdgeAxials(a, ab).contains(&(Axial { q, r }, n, w, e)));
            }
        }
    }
}

#[test]
fn settlement_distance_rule() {
    let mut b = Board::build(2);
    let v = Axial { q: 0, r: 0 };
    assert!(b.tryPlaceSettlement(v, false, 1));
    assert_eq!(
        b.getVertexFromAxial(v, false).unwrap().settlement_data,
        Some(SettlementData { player_id: 1, tier: SettlementTier::Basic })
    );
    for (n, nb) in b.getVertexNeighbourAxials(v, false) {
        assert!(!b.tryPlaceSettlement(n, nb, 2));
        assert_eq!(b.getVertexFromAxial(n, nb).unwrap().settlement_data, None);
    }
    assert!(!b.tryPlaceSettlement(v, false, 2));
    assert!(b.tryPlaceSettlement(Axial { q: -1, r: 1 }, false, 2));
}

#[test]
fn settlement_on_missing_vertex_refused() {
    let mut b = Board::build(2);
    assert!(!b.tryPlaceSettlement(Axial { q: 5, r: 5 }, false, 1));
    assert!(!b.tryPlaceSettlement(Axial { q: 0, r: 3 }, true, 1));
}

#[test]
fn vertices_resolve_from_their_positions() {
    let b = Board::build(2);
    let mut resolved = 0;
    for (a, bottom, v) in all_vertices(&b) {
        let w = v.world_coordinates;
        match b.hexWorldToAxial(w) {
            Some(_) => {
                assert_eq!(b.resolveWorldPosition(w, false), Some(Address::Vertex(a, bottom)));
                assert_eq!(b.vertexWorldToAxial(w), Some((a, bottom)));
                resolved += 1;
            }
            None => assert_eq!(b.resolveWorldPosition(w, false), None),
        }
    }
    // exact vertex positions lie where three hexes meet; each rounds to the
    // hex that has it as corner 1 or 4, so two per board hex resolve
    assert_eq!(resolved, 38);
}

#[test]
fn picks_near_sites_and_at_centers() {
    let b = Board::build(2);
    let near_top = WorldPos { x: -3500, z: 300 };
    assert_eq!(b.resolveWorldPosition(near_top, false), Some(Address::Vertex(Axial { q: 0, r: 0 }, false)));
    let between = WorldPos { x: -2900, z: 0 };
    assert_eq!(b.resolveWorldPosition(between, false), None);
    assert_eq!(b.resolveWorldPosition(between, true), Some(Address::Hex(Axial { q: 0, r: 0 })));
    let side = WorldPos { x: -3000, z: 1000 };
    assert_eq!(
        b.resolveWorldPosition(side, false),
        Some(Address::Edge(Axial { q: 0, r: 0 }, true, false, false))
    );
    assert_eq!(b.edgeWorldToAxial(side), Some((Axial { q: 0, r: 0 }, true, false, false)));
    for q in -2i32..=2 {
        for r in -2i32..=2 {
            if hex_dist(q, r) > 2 {
                continue;
            }
            let c = Board::hexAxialToWorld(q, r);
            assert_eq!(b.resolveWorldPosition(c, false), None);
            assert_eq!(b.resolveWorldPosition(c, true), Some(Address::Hex(Axial { q, r })));
            assert_eq!(b.hexWorldToAxial(c), Some(Axial { q, r }));
        }
    }
    assert_eq!(b.hexWorldToAxial(Board::hexAxialToWorld(3, 0)), None);
    assert_eq!(b.resolveWorldPosition(WorldPos { x: i64::MAX, z: 0 }, true), None);
}

#[test]
fn site_positions_from_a_hex_center() {
    let b = Board::build(2);
    let c = Board::hexAxialToWorld(0, 0);
    assert_eq!(b.vertexAxialToWorld(0, 0, c, false), Some(WorldPos { x: -4000, z: 0 }));
    assert_eq!(b.vertexAxialToWorld(0, 0, c, true), Some(WorldPos { x: 4000, z: 0 }));
    assert_eq!(b.vertexAxialToWorld(1, -1, c, true), Some(WorldPos { x: -2000, z: 2000 }));
    assert_eq!(b.vertexAxialToWorld(2, 2, c, true), None);
    assert_eq!(b.edgeAxialToWorld(0, 0, c, true, false, false), Some(WorldPos { x: -3000, z: 1000 }));
    assert_eq!(b.edgeAxialToWorld(-1, 1, c, true, false, false), Some(WorldPos { x: 3000, z: -1000 }));
    assert_eq!(b.edgeAxialToWorld(-1, 0, c, false, true, false), Some(WorldPos { x: 0, z: -2000 }));
    assert_eq!(b.edgeAxialToWorld(0, 0, Board::hexAxialToWorld(4, 0), true, false, false), None);
}

#[test]
fn radius_two_scenario() {
    let mut b = Board::build(2);
    assert_eq!(count_hexes(&b), 19);
    assert_eq!(all_vertices(&b).len(), 54);
    let v = Axial { q: 0, r: -1 };
    assert!(b.tryPlaceSettlement(v, true, 3));
    let neighbours = b.getVertexNeighbourAxials(v, true);
    assert_eq!(neighbours.len(), 3);
    for (n, nb) in neighbours.iter() {
        assert!(!b.tryPlaceSettlement(*n, *nb, 4));
    }
    let (n0, n0b) = neighbours[0];
    let two_hops = b
        .getVertexNeighbourAxials(n0, n0b)
        .into_iter()
        .find(|&(a, ab)| !(a == v && ab))
        .unwrap();
    assert!(b.tryPlaceSettlement(two_hops.0, two_hops.1, 4));
}
