use vstd::prelude::*;

use crate::board::{
    lemma_on_board_bounds, corner_key, edge_other_hex, edge_world_x, edge_world_z, on_board,
    port_for, port_upto, side_key, tile_ok, touching_hex_cands, vertex_on_board, vertex_world_x,
    vertex_world_z, Board, EKey, Edge, Hex, PortPosition, VKey, Vertex, MAX_RADIUS,
};
use crate::common::{resource_of_int, HexData, IntToResourceType, PortData, ResourceType};
use crate::coords::{
    center_x, center_z, corner_dx, corner_dz, edge_dx, edge_dz, hex_dist, within_world_limit,
};

verus! {

/// Whether vertex `k` is one of the first `n` corners of hex `(q, r)`.
pub open spec fn corner_upto(q: int, r: int, n: int, k: VKey) -> bool
    decreases n,
{
    if n <= 0 {
        false
    } else {
        corner_upto(q, r, n - 1, k) || corner_key(q, r, n - 1) == k
    }
}

/// Whether edge `k` is one of the first `n` sides of hex `(q, r)`.
pub open spec fn side_upto(q: int, r: int, n: int, k: EKey) -> bool
    decreases n,
{
    if n <= 0 {
        false
    } else {
        side_upto(q, r, n - 1, k) || side_key(q, r, n - 1) == k
    }
}

/// A vertex as the builder creates it: at its world position, with no port and
/// no settlement.
pub open spec fn fresh_vertex(v: Vertex, k: VKey) -> bool {
    &&& v.world_coordinates.x == vertex_world_x(k)
    &&& v.world_coordinates.z == vertex_world_z(k)
    &&& v.port_data.is_none()
    &&& v.settlement_data.is_none()
}

pub open spec fn fresh_edge(e: Edge, k: EKey) -> bool {
    &&& e.world_coordinates.x == edge_world_x(k)
    &&& e.world_coordinates.z == edge_world_z(k)
    &&& e.road_data.is_none()
}

/// Hexes that a row-by-row sweep has reached before hex `(cq, cr)`.
pub open spec fn swept(radius: int, cq: int, cr: int, q: int, r: int) -> bool {
    on_board(radius, q, r) && (q < cq || (q == cq && r < cr))
}

pub open spec fn vertex_swept(radius: int, cq: int, cr: int, k: VKey) -> bool {
    let t = touching_hex_cands(k.0, k.1, k.2);
    swept(radius, cq, cr, t[0].0, t[0].1) || swept(radius, cq, cr, t[1].0, t[1].1) || swept(
        radius,
        cq,
        cr,
        t[2].0,
        t[2].1,
    )
}

pub open spec fn edge_swept(radius: int, cq: int, cr: int, k: EKey) -> bool {
    0 <= k.2 < 3 && (swept(radius, cq, cr, k.0, k.1) || swept(
        radius,
        cq,
        cr,
        edge_other_hex(k.0, k.1, k.2).0,
        edge_other_hex(k.0, k.1, k.2).1,
    ))
}

proof fn lemma_row(radius: int, q: int, r: int)
    requires
        radius >= 0,
    ensures
        on_board(radius, q, r) <==> (-radius <= q <= radius && (if -radius > -radius - q {
            -radius
        } else {
            -radius - q
        }) <= r <= (if radius < radius - q {
            radius
        } else {
            radius - q
        })),
{
}

proof fn lemma_corner_world(q: int, r: int, i: int)
    requires
        0 <= i < 6,
    ensures
        center_x(q, r) + corner_dx(i) == vertex_world_x(corner_key(q, r, i)),
        center_z(q, r) + corner_dz(i) == vertex_world_z(corner_key(q, r, i)),
{
}

proof fn lemma_side_world(q: int, r: int, i: int)
    requires
        0 <= i < 6,
    ensures
        center_x(q, r) + edge_dx(i) == edge_world_x(side_key(q, r, i)),
        center_z(q, r) + edge_dz(i) == edge_world_z(side_key(q, r, i)),
{
}

/// The six corners of a hex are the vertices that list it among the hexes
/// they touch.
proof fn lemma_corners_touch(q: int, r: int, k: VKey)
    ensures
        corner_upto(q, r, 6, k) <==> ({
            let t = touching_hex_cands(k.0, k.1, k.2);
            t[0] == (q, r) || t[1] == (q, r) || t[2] == (q, r)
        }),
{
    reveal_with_fuel(corner_upto, 7);
}

/// The six sides of a hex are the edges that list it among their two hexes.
proof fn lemma_sides_touch(q: int, r: int, k: EKey)
    ensures
        side_upto(q, r, 6, k) <==> (0 <= k.2 < 3 && ((k.0, k.1) == (q, r) || edge_other_hex(
            k.0,
            k.1,
            k.2,
        ) == (q, r))),
{
    reveal_with_fuel(side_upto, 7);
}

/// Cube-distance filter: on a built board there is a hex at `(q, r)` exactly
/// when its cube distance from the origin is at most the radius.
pub proof fn lemma_hexes_within_radius(b: Board, q: int, r: int)
    requires
        b.wf(),
        b.lattice_ok(),
    ensures
        b.hex_map().contains_key((q, r)) <==> hex_dist(q, r) <= b.spec_radius(),
{
}

/// Deduplication: on a built board the vertices are exactly the distinct
/// corner addresses of the board hexes, one entry each, and each is where
/// those corners are in the world.
pub proof fn lemma_vertices_are_corners(b: Board, k: VKey)
    requires
        b.wf(),
        b.lattice_ok(),
    ensures
        b.vertex_map().contains_key(k) <==> exists|q: int, r: int, i: int|
            on_board(b.spec_radius(), q, r) && 0 <= i < 6 && #[trigger] corner_key(q, r, i) == k,
        forall|q: int, r: int, i: int|
            on_board(b.spec_radius(), q, r) && 0 <= i < 6 && #[trigger] corner_key(q, r, i) == k
                ==> b.vertex_map()[k].world_coordinates.x == center_x(q, r) + corner_dx(i)
                && b.vertex_map()[k].world_coordinates.z == center_z(q, r) + corner_dz(i),
{
    let t = touching_hex_cands(k.0, k.1, k.2);
    reveal_with_fuel(corner_upto, 7);
    if b.vertex_map().contains_key(k) {
        let j: int = if on_board(b.spec_radius(), t[0].0, t[0].1) {
            0
        } else if on_board(b.spec_radius(), t[1].0, t[1].1) {
            1
        } else {
            2
        };
        lemma_corners_touch(t[j].0, t[j].1, k);
        let i = choose|i: int| 0 <= i < 6 && corner_key(t[j].0, t[j].1, i) == k;
        assert(on_board(b.spec_radius(), t[j].0, t[j].1) && 0 <= i < 6 && corner_key(t[j].0, t[j].1, i) == k);
    }
    assert forall|q: int, r: int, i: int|
        on_board(b.spec_radius(), q, r) && 0 <= i < 6 && #[trigger] corner_key(q, r, i) == k implies b.vertex_map().contains_key(k)
        && b.vertex_map()[k].world_coordinates.x == center_x(q, r) + corner_dx(i)
        && b.vertex_map()[k].world_coordinates.z == center_z(q, r) + corner_dz(i) by {
        lemma_corners_touch(q, r, k);
        lemma_corner_world(q, r, i);
    }
}

/// Every side of a board hex is an edge of a built board.
pub proof fn lemma_sides_are_edges(b: Board, q: int, r: int, i: int)
    requires
        b.wf(),
        b.lattice_ok(),
        on_board(b.spec_radius(), q, r),
        0 <= i < 6,
    ensures
        b.edge_map().contains_key(side_key(q, r, i)),
{
    reveal_with_fuel(side_upto, 7);
    lemma_sides_touch(q, r, side_key(q, r, i));
}

/// Relies on `rand::Rng::gen_range` on `rand::thread_rng()`: a value drawn
/// from the half-open range `low..high`.
#[verifier::external_body]
fn random_in_range(low: i8, high: i8) -> (r: i8)
    requires
        low < high,
    ensures
        low <= r < high,
{
    rand::Rng::gen_range(&mut rand::thread_rng(), low..high)
}

impl Board {
    /// Tile data of hex `(q, r)` from a resource draw and two dice: the center
    /// hex is the desert and holds the robber.
    pub fn tileFromRolls(q: i32, r: i32, resource_roll: i8, dice_a: i8, dice_b: i8) -> (d: HexData)
        requires
            1 <= dice_a <= 6,
            1 <= dice_b <= 6,
        ensures
            d.resource == if q == 0 && r == 0 {
                ResourceType::Nothing
            } else {
                resource_of_int(resource_roll as int)
            },
            d.dice_num == dice_a + dice_b,
            d.has_robber == (q == 0 && r == 0),
    {
        let is_center = q == 0 && r == 0;
        let resource = if is_center {
            ResourceType::Nothing
        } else {
            IntToResourceType(resource_roll)
        };
        HexData { resource, dice_num: dice_a + dice_b, has_robber: is_center }
    }

    fn roll_tile(q: i32, r: i32) -> (d: HexData)
        ensures
            tile_ok(q as int, r as int, d),
    {
        let resource_roll = random_in_range(1, 6);
        let dice_a = random_in_range(1, 7);
        let dice_b = random_in_range(1, 7);
        Self::tileFromRolls(q, r, resource_roll, dice_a, dice_b)
    }

    /// Adds hex `(q, r)`, and each of its corners and sides that is not there yet.
    fn add_hex(&mut self, q: i32, r: i32, data: HexData)
        requires
            old(self).wf(),
            on_board(old(self).spec_radius(), q as int, r as int),
        ensures
            final(self).wf(),
            final(self).spec_radius() == old(self).spec_radius(),
            final(self).port_list() == old(self).port_list(),
            final(self).port_sites() == old(self).port_sites(),
            final(self).hex_map() == old(self).hex_map().insert(
                (q as int, r as int),
                final(self).hex_map()[(q as int, r as int)],
            ),
            final(self).hex_map()[(q as int, r as int)].center_coordinates.x == center_x(
                q as int,
                r as int,
            ),
            final(self).hex_map()[(q as int, r as int)].center_coordinates.z == center_z(
                q as int,
                r as int,
            ),
            final(self).hex_map()[(q as int, r as int)].hex_data == data,
            forall|k: VKey| #[trigger]
                final(self).vertex_map().contains_key(k) <==> old(self).vertex_map().contains_key(k)
                    || corner_upto(q as int, r as int, 6, k),
            forall|k: VKey| #[trigger]
                old(self).vertex_map().contains_key(k) ==> final(self).vertex_map()[k] == old(
                    self,
                ).vertex_map()[k],
            forall|k: VKey|
                #![trigger final(self).vertex_map()[k]]
                final(self).vertex_map().contains_key(k) && !old(self).vertex_map().contains_key(k)
                    ==> fresh_vertex(final(self).vertex_map()[k], k),
            forall|k: EKey| #[trigger]
                final(self).edge_map().contains_key(k) <==> old(self).edge_map().contains_key(k)
                    || side_upto(q as int, r as int, 6, k),
            forall|k: EKey| #[trigger]
                old(self).edge_map().contains_key(k) ==> final(self).edge_map()[k] == old(
                    self,
                ).edge_map()[k],
            forall|k: EKey|
                #![trigger final(self).edge_map()[k]]
                final(self).edge_map().contains_key(k) && !old(self).edge_map().contains_key(k)
                    ==> fresh_edge(final(self).edge_map()[k], k),
    {
        let ghost rad = self.spec_radius();
        proof {
            self.lemma_radius_bound();
            lemma_on_board_bounds(rad, q as int, r as int);
        }
        let center = Self::hexAxialToWorld(q, r);
        assert(within_world_limit(center));
        for i in 0i8..6i8
            invariant
                self.wf(),
                self.spec_radius() == rad,
                on_board(rad, q as int, r as int),
                rad <= MAX_RADIUS,
                center.x == center_x(q as int, r as int),
                center.z == center_z(q as int, r as int),
                within_world_limit(center),
                self.port_list() == old(self).port_list(),
                self.port_sites() == old(self).port_sites(),
                self.hex_map() == old(self).hex_map(),
                self.edge_map() == old(self).edge_map(),
                forall|k: VKey| #[trigger]
                    self.vertex_map().contains_key(k) <==> old(self).vertex_map().contains_key(k)
                        || corner_upto(q as int, r as int, i as int, k),
                forall|k: VKey| #[trigger]
                    old(self).vertex_map().contains_key(k) ==> self.vertex_map()[k] == old(
                        self,
                    ).vertex_map()[k],
                forall|k: VKey|
                    #![trigger self.vertex_map()[k]]
                    self.vertex_map().contains_key(k) && !old(self).vertex_map().contains_key(k)
                        ==> fresh_vertex(self.vertex_map()[k], k),
        {
            let vq = q as i64 + Self::vertexQOffsetFromI(i) as i64;
            let vr = r as i64 + Self::vertexROffsetFromI(i) as i64;
            let is_bottom = i % 2 == 0;
            proof {
                lemma_corner_world(q as int, r as int, i as int);
            }
            if self.vertex_at(vq, vr, is_bottom).is_none() {
                let w = Self::getCorners(center, i);
                self.set_vertex(
                    vq,
                    vr,
                    is_bottom,
                    Vertex { world_coordinates: w, port_data: None, settlement_data: None },
                );
            }
        }
        let ghost mid = *self;
        for i in 0i8..6i8
            invariant
                self.wf(),
                self.spec_radius() == rad,
                on_board(rad, q as int, r as int),
                rad <= MAX_RADIUS,
                center.x == center_x(q as int, r as int),
                center.z == center_z(q as int, r as int),
                within_world_limit(center),
                self.port_list() == old(self).port_list(),
                self.port_sites() == old(self).port_sites(),
                self.hex_map() == old(self).hex_map(),
                self.vertex_map() == mid.vertex_map(),
                forall|k: EKey| #[trigger]
                    self.edge_map().contains_key(k) <==> old(self).edge_map().contains_key(k)
                        || side_upto(q as int, r as int, i as int, k),
                forall|k: EKey| #[trigger]
                    old(self).edge_map().contains_key(k) ==> self.edge_map()[k] == old(
                        self,
                    ).edge_map()[k],
                forall|k: EKey|
                    #![trigger self.edge_map()[k]]
                    self.edge_map().contains_key(k) && !old(self).edge_map().contains_key(k)
                        ==> fresh_edge(self.edge_map()[k], k),
        {
            let eq = q as i64 + Self::edgeQOffsetFromI(i) as i64;
            let er = r as i64 + Self::edgeROffsetFromI(i) as i64;
            let s: u8 = if i == 0 || i == 3 {
                0
            } else if i == 2 || i == 5 {
                1
            } else {
                2
            };
            proof {
                lemma_side_world(q as int, r as int, i as int);
            }
            if self.edge_at(eq, er, s).is_none() {
                let w = Self::getEdges(center, i);
                self.set_edge(eq, er, s, Edge { world_coordinates: w, road_data: None });
            }
        }
        self.set_hex(q as i64, r as i64, Hex { center_coordinates: center, hex_data: data });
    }
    /// Gives each vertex named in the port table the port of its entry.
    fn apply_ports(&mut self)
        requires
            old(self).wf(),
            forall|k: VKey| #[trigger]
                old(self).vertex_map().contains_key(k) ==> old(self).vertex_map()[k].port_data.is_none(),
        ensures
            final(self).wf(),
            final(self).spec_radius() == old(self).spec_radius(),
            final(self).port_list() == old(self).port_list(),
            final(self).port_sites() == old(self).port_sites(),
            final(self).hex_map() == old(self).hex_map(),
            final(self).edge_map() == old(self).edge_map(),
            final(self).vertex_map().dom() == old(self).vertex_map().dom(),
            forall|k: VKey| #[trigger]
                final(self).vertex_map().contains_key(k) ==> final(self).vertex_map()[k]
                    == (Vertex {
                    port_data: port_for(final(self).port_sites(), final(self).port_list(), k),
                    ..old(self).vertex_map()[k]
                }),
    {
        let n = self.port_vertices().len();
        proof {
            self.lemma_radius_bound();
        }
        let mut j: usize = 0;
        while j < n
            invariant
                self.wf(),
                n == self.port_sites().len(),
                n <= 2 * self.port_list().len(),
                j <= n,
                self.spec_radius() == old(self).spec_radius(),
                self.port_list() == old(self).port_list(),
                self.port_sites() == old(self).port_sites(),
                self.hex_map() == old(self).hex_map(),
                self.edge_map() == old(self).edge_map(),
                self.vertex_map().dom() == old(self).vertex_map().dom(),
                forall|k: VKey| #[trigger]
                    self.vertex_map().contains_key(k) ==> self.vertex_map()[k] == (Vertex {
                        port_data: port_upto(self.port_sites(), self.port_list(), j as int, k),
                        ..old(self).vertex_map()[k]
                    }),
            decreases n - j,
        {
            let site: PortPosition = self.port_vertices()[j];
            let q = site.axial_coordinates.q as i64;
            let r = site.axial_coordinates.r as i64;
            match self.vertex_at(q, r, site.is_bottom) {
                Some(v) => {
                    proof {
                        self.lemma_maps_in_grid();
                    }
                    let port: PortData = self.ports()[j / 2];
                    let ghost before = *self;
                    self.set_vertex(q, r, site.is_bottom, Vertex { port_data: Some(port), ..v });
                    assert(self.vertex_map().dom() =~= before.vertex_map().dom());
                },
                None => {},
            }
            j += 1;
        }
    }
    /// Builds the lattice on an empty board: every hex within the radius, each
    /// of their corners and sides created once, then the ports.
    pub fn spawn(&mut self)
        requires
            old(self).wf(),
            old(self).hex_map().is_empty(),
            old(self).vertex_map().is_empty(),
            old(self).edge_map().is_empty(),
        ensures
            final(self).wf(),
            final(self).spec_radius() == old(self).spec_radius(),
            final(self).port_list() == old(self).port_list(),
            final(self).port_sites() == old(self).port_sites(),
            final(self).lattice_ok(),
            forall|k: VKey| #[trigger]
                final(self).vertex_map().contains_key(k) ==> final(self).vertex_map()[k].port_data
                    == port_for(final(self).port_sites(), final(self).port_list(), k)
                    && final(self).vertex_map()[k].settlement_data.is_none(),
            forall|k: EKey| #[trigger]
                final(self).edge_map().contains_key(k) ==> final(self).edge_map()[k].road_data.is_none(),
    {
        proof {
            self.lemma_radius_bound();
        }
        let ghost rad = self.spec_radius();
        let radius: i32 = self.radius() as i32;
        let mut q: i32 = -radius;
        while q <= radius
            invariant
                self.wf(),
                rad == self.spec_radius(),
                rad == radius,
                0 <= rad <= MAX_RADIUS,
                -radius <= q <= radius + 1,
                self.port_list() == old(self).port_list(),
                self.port_sites() == old(self).port_sites(),
                forall|k: (int, int)| #[trigger]
                    self.hex_map().contains_key(k) <==> swept(rad, q as int, -rad - 1, k.0, k.1),
                forall|k: (int, int)| #[trigger]
                    self.hex_map().contains_key(k) ==> self.hex_map()[k].center_coordinates.x
                        == center_x(k.0, k.1) && self.hex_map()[k].center_coordinates.z == center_z(
                        k.0,
                        k.1,
                    ) && tile_ok(k.0, k.1, self.hex_map()[k].hex_data),
                forall|k: VKey| #[trigger]
                    self.vertex_map().contains_key(k) <==> vertex_swept(rad, q as int, -rad - 1, k),
                forall|k: VKey| #[trigger]
                    self.vertex_map().contains_key(k) ==> fresh_vertex(self.vertex_map()[k], k),
                forall|k: EKey| #[trigger]
                    self.edge_map().contains_key(k) <==> edge_swept(rad, q as int, -rad - 1, k),
                forall|k: EKey| #[trigger]
                    self.edge_map().contains_key(k) ==> fresh_edge(self.edge_map()[k], k),
            decreases radius + 1 - q,
        {
            let lo: i32 = if -radius > -radius - q {
                -radius
            } else {
                -radius - q
            };
            let hi: i32 = if radius < radius - q {
                radius
            } else {
                radius - q
            };
            proof {
                assert forall|a: int, b: int|
                    swept(rad, q as int, -rad - 1, a, b) == swept(rad, q as int, lo as int, a, b) by {
                    lemma_row(rad, a, b);
                }
            }
            let mut r: i32 = lo;
            while r <= hi
                invariant
                    self.wf(),
                    rad == self.spec_radius(),
                    rad == radius,
                    0 <= rad <= MAX_RADIUS,
                    -radius <= q <= radius,
                    lo == (if -rad > -rad - q {
                        -rad
                    } else {
                        -rad - q
                    }),
                    hi == (if rad < rad - q {
                        rad
                    } else {
                        rad - q
                    }),
                    lo <= r <= hi + 1,
                    self.port_list() == old(self).port_list(),
                    self.port_sites() == old(self).port_sites(),
                    forall|k: (int, int)| #[trigger]
                        self.hex_map().contains_key(k) <==> swept(rad, q as int, r as int, k.0, k.1),
                    forall|k: (int, int)| #[trigger]
                        self.hex_map().contains_key(k) ==> self.hex_map()[k].center_coordinates.x
                            == center_x(k.0, k.1) && self.hex_map()[k].center_coordinates.z
                            == center_z(k.0, k.1) && tile_ok(k.0, k.1, self.hex_map()[k].hex_data),
                    forall|k: VKey| #[trigger]
                        self.vertex_map().contains_key(k) <==> vertex_swept(rad, q as int, r as int, k),
                    forall|k: VKey| #[trigger]
                        self.vertex_map().contains_key(k) ==> fresh_vertex(self.vertex_map()[k], k),
                    forall|k: EKey| #[trigger]
                        self.edge_map().contains_key(k) <==> edge_swept(rad, q as int, r as int, k),
                    forall|k: EKey| #[trigger]
                        self.edge_map().contains_key(k) ==> fresh_edge(self.edge_map()[k], k),
                decreases hi + 1 - r,
            {
                proof {
                    lemma_row(rad, q as int, r as int);
                }
                let data = Self::roll_tile(q, r);
                let ghost before = *self;
                self.add_hex(q, r, data);
                proof {
                    assert forall|a: int, b: int|
                        swept(rad, q as int, r + 1, a, b) == (swept(rad, q as int, r as int, a, b) || (
                        a, b) == (q as int, r as int)) by {}
                    assert forall|k: VKey| #[trigger]
                        self.vertex_map().contains_key(k) <==> vertex_swept(
                            rad,
                            q as int,
                            r + 1,
                            k,
                        ) by {
                        lemma_corners_touch(q as int, r as int, k);
                    }
                    assert forall|k: VKey| #[trigger]
                        self.vertex_map().contains_key(k) implies fresh_vertex(
                        self.vertex_map()[k],
                        k,
                    ) by {
                        if before.vertex_map().contains_key(k) {
                        }
                    }
                    assert forall|k: EKey| #[trigger]
                        self.edge_map().contains_key(k) <==> edge_swept(rad, q as int, r + 1, k) by {
                        lemma_sides_touch(q as int, r as int, k);
                    }
                    assert forall|k: EKey| #[trigger]
                        self.edge_map().contains_key(k) implies fresh_edge(self.edge_map()[k], k) by {
                        if before.edge_map().contains_key(k) {
                        }
                    }
                    assert forall|k: (int, int)| #[trigger]
                        self.hex_map().contains_key(k) implies self.hex_map()[k].center_coordinates.x
                        == center_x(k.0, k.1) && self.hex_map()[k].center_coordinates.z == center_z(
                        k.0,
                        k.1,
                    ) && tile_ok(k.0, k.1, self.hex_map()[k].hex_data) by {
                        if k != (q as int, r as int) {
                            assert(before.hex_map().contains_key(k));
                        }
                    }
                }
                r = r + 1;
            }
            proof {
                assert forall|a: int, b: int|
                    swept(rad, q as int, r as int, a, b) == swept(rad, q + 1, -rad - 1, a, b) by {
                    lemma_row(rad, a, b);
                }
            }
            q = q + 1;
        }
        proof {
            assert forall|a: int, b: int| swept(rad, q as int, -rad - 1, a, b) == on_board(rad, a, b) by {
                lemma_row(rad, a, b);
            }
        }
        let ghost swept_board = *self;
        self.apply_ports();
        proof {
            assert forall|k: VKey| #[trigger]
                self.vertex_map().contains_key(k) <==> vertex_on_board(rad, k) by {
                assert(self.vertex_map().dom().contains(k) == swept_board.vertex_map().dom().contains(k));
            }
        }
    }

    /// A board of the given radius with its lattice built.
    pub fn build(radius: u8) -> (b: Board)
        requires
            radius <= MAX_RADIUS,
        ensures
            b.wf(),
            b.spec_radius() == radius,
            b.lattice_ok(),
            b.port_list() == crate::board::default_ports(),
            b.port_sites() == crate::board::default_port_sites(),
            forall|k: VKey| #[trigger]
                b.vertex_map().contains_key(k) ==> b.vertex_map()[k].port_data == port_for(
                    b.port_sites(),
                    b.port_list(),
                    k,
                ) && b.vertex_map()[k].settlement_data.is_none(),
            forall|k: EKey| #[trigger]
                b.edge_map().contains_key(k) ==> b.edge_map()[k].road_data.is_none(),
    {
        let mut b = Board::create_new(radius);
        b.spawn();
        b
    }
}

} // verus!
