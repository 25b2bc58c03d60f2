use vstd::prelude::*;

use crate::common::{HexData, PortData, ResourceType, RoadData, SettlementData};
use crate::coords::{
    center_x, center_z, corner_dx, corner_dz, edge_dx, edge_dz, edge_q_off, edge_r_off, edge_slot,
    hex_dist, slot_of, vertex_is_bottom, vertex_q_off, vertex_r_off, Axial, WorldPos, EAST, NORTH,
    WEST,
};

verus! {

/// A settlement site: a corner shared by up to three hexes.
#[derive(Copy, Clone, Debug, PartialEq, Eq, Structural)]
pub struct Vertex {
    pub world_coordinates: WorldPos,
    pub port_data: Option<PortData>,
    pub settlement_data: Option<SettlementData>,
}

/// Where a port stands: the vertex address it decorates.
#[derive(Copy, Clone, Debug, PartialEq, Eq, Structural)]
pub struct PortPosition {
    pub axial_coordinates: Axial,
    pub is_bottom: bool,
}

/// A road site: the midpoint of a side shared by up to two hexes.
#[derive(Copy, Clone, Debug, PartialEq, Eq, Structural)]
pub struct Edge {
    pub world_coordinates: WorldPos,
    pub road_data: Option<RoadData>,
}

/// The two vertex slots that belong to one axial cell.
#[derive(Copy, Clone, Debug, PartialEq, Eq, Structural)]
pub struct HexVertex {
    pub top: Option<Vertex>,
    pub bottom: Option<Vertex>,
}

/// The three edge slots that belong to one axial cell.
#[derive(Copy, Clone, Debug, PartialEq, Eq, Structural)]
pub struct HexEdge {
    pub north: Option<Edge>,
    pub west: Option<Edge>,
    pub east: Option<Edge>,
}

/// A tile of the board.
#[derive(Copy, Clone, Debug, PartialEq, Eq, Structural)]
pub struct Hex {
    pub center_coordinates: WorldPos,
    pub hex_data: HexData,
}

/// The board: hexes, vertices and edges in grids keyed by shifted axial
/// coordinates, and the port table.
pub struct Board {
    radius: u8,
    hexes: Vec<Option<Hex>>,
    vertices: Vec<HexVertex>,
    edges: Vec<HexEdge>,
    ports: Vec<PortData>,
    port_vertices: Vec<PortPosition>,
}

/// Address of a vertex: `(q, r, is_bottom)`.
pub type VKey = (int, int, bool);

/// Address of an edge: `(q, r, slot)` with slot `NORTH()`, `WEST()` or `EAST()`.
pub type EKey = (int, int, int);

pub open spec fn map_get<K, V>(m: Map<K, V>, k: K) -> Option<V> {
    if m.contains_key(k) {
        Some(m[k])
    } else {
        None
    }
}

pub open spec fn on_board(radius: int, q: int, r: int) -> bool {
    hex_dist(q, r) <= radius
}

pub proof fn lemma_on_board_bounds(radius: int, q: int, r: int)
    requires
        on_board(radius, q, r),
    ensures
        -radius <= q <= radius,
        -radius <= r <= radius,
        -radius <= q + r <= radius,
{
}

/// Sign that mirrors the offset tables for bottom vertices.
pub open spec fn mirror(is_bottom: bool) -> int {
    if is_bottom {
        -1
    } else {
        1
    }
}

/// The hexes that touch vertex `(q, r, b)`.
pub open spec fn touching_hex_cands(q: int, r: int, b: bool) -> Seq<(int, int)> {
    let m = mirror(b);
    seq![(q + m, r - m), (q, r), (q, r - m)]
}

/// A vertex belongs to the lattice when one of the hexes it touches does.
pub open spec fn vertex_on_board(radius: int, k: VKey) -> bool {
    let t = touching_hex_cands(k.0, k.1, k.2);
    on_board(radius, t[0].0, t[0].1) || on_board(radius, t[1].0, t[1].1) || on_board(
        radius,
        t[2].0,
        t[2].1,
    )
}

/// The second hex that shares edge `(q, r, s)` with hex `(q, r)`.
pub open spec fn edge_other_hex(q: int, r: int, s: int) -> (int, int) {
    if s == NORTH() {
        (q + 1, r - 1)
    } else if s == WEST() {
        (q + 1, r)
    } else {
        (q, r - 1)
    }
}

/// An edge belongs to the lattice when one of its two hexes does.
pub open spec fn edge_on_board(radius: int, k: EKey) -> bool {
    0 <= k.2 < 3 && (on_board(radius, k.0, k.1) || on_board(
        radius,
        edge_other_hex(k.0, k.1, k.2).0,
        edge_other_hex(k.0, k.1, k.2).1,
    ))
}

/// Vertex address of corner `i` of hex `(q, r)`.
pub open spec fn corner_key(q: int, r: int, i: int) -> VKey {
    (q + vertex_q_off(i), r + vertex_r_off(i), vertex_is_bottom(i))
}

/// Edge address of side `i` of hex `(q, r)`.
pub open spec fn side_key(q: int, r: int, i: int) -> EKey {
    (q + edge_q_off(i), r + edge_r_off(i), edge_slot(i))
}

/// World position of a vertex: corner 0 of its own hex when it is a bottom
/// vertex, corner 3 otherwise.
pub open spec fn vertex_world_x(k: VKey) -> int {
    center_x(k.0, k.1) + corner_dx(if k.2 { 0 } else { 3 })
}

pub open spec fn vertex_world_z(k: VKey) -> int {
    center_z(k.0, k.1) + corner_dz(if k.2 { 0 } else { 3 })
}

/// World position of an edge: side 3, 2 or 4 of its own hex for north, west
/// or east.
pub open spec fn edge_side(s: int) -> int {
    if s == NORTH() {
        3
    } else if s == WEST() {
        2
    } else {
        4
    }
}

pub open spec fn edge_world_x(k: EKey) -> int {
    center_x(k.0, k.1) + edge_dx(edge_side(k.2))
}

pub open spec fn edge_world_z(k: EKey) -> int {
    center_z(k.0, k.1) + edge_dz(edge_side(k.2))
}

/// The hex data allowed at hex `(q, r)`: the center hex is the desert, with
/// the robber; every other hex yields one of the five resources; a dice total
/// is the sum of two dice.
pub open spec fn tile_ok(q: int, r: int, d: HexData) -> bool {
    &&& 2 <= d.dice_num <= 12
    &&& d.has_robber == (q == 0 && r == 0)
    &&& if q == 0 && r == 0 {
        d.resource == ResourceType::Nothing
    } else {
        d.resource != ResourceType::Nothing && d.resource != ResourceType::Anything
    }
}

pub open spec fn vkey_of(a: Axial, b: bool) -> VKey {
    (a.q as int, a.r as int, b)
}

pub open spec fn ekey_of(a: Axial, is_north: bool, is_west: bool, is_east: bool) -> EKey {
    (a.q as int, a.r as int, slot_of(is_north, is_west, is_east))
}

pub open spec fn vtuple(k: VKey) -> (Axial, bool) {
    (Axial { q: k.0 as i32, r: k.1 as i32 }, k.2)
}

pub open spec fn etuple(k: EKey) -> (Axial, bool, bool, bool) {
    (Axial { q: k.0 as i32, r: k.1 as i32 }, k.2 == NORTH(), k.2 == WEST(), k.2 == EAST())
}

pub open spec fn htuple(k: (int, int)) -> Axial {
    Axial { q: k.0 as i32, r: k.1 as i32 }
}

/// The trade ports of a standard board.
pub open spec fn default_ports() -> Seq<PortData> {
    seq![
        PortData { input: ResourceType::Wheat, num_inputs: 2 },
        PortData { input: ResourceType::Anything, num_inputs: 3 },
        PortData { input: ResourceType::Wood, num_inputs: 2 },
        PortData { input: ResourceType::Brick, num_inputs: 2 },
        PortData { input: ResourceType::Anything, num_inputs: 3 },
        PortData { input: ResourceType::Anything, num_inputs: 3 },
        PortData { input: ResourceType::Sheep, num_inputs: 2 },
        PortData { input: ResourceType::Anything, num_inputs: 3 },
        PortData { input: ResourceType::Stone, num_inputs: 2 },
    ]
}

pub open spec fn site(q: int, r: int, is_bottom: bool) -> PortPosition {
    PortPosition { axial_coordinates: Axial { q: q as i32, r: r as i32 }, is_bottom }
}

/// The two vertices of each port, in the order of `default_ports`.
pub open spec fn default_port_sites() -> Seq<PortPosition> {
    seq![
        site(1, -2, false), site(1, -3, true),
        site(2, -2, false), site(3, -3, true),
        site(3, -2, true), site(2, 0, false),
        site(2, 0, true), site(1, 2, false),
        site(0, 3, false), site(0, 2, true),
        site(-2, 1, true), site(-3, 2, false),
        site(-1, -2, true), site(-1, -1, false),
        site(-3, 1, false), site(-2, -1, true),
        site(-1, 2, true), site(-2, 3, false),
    ]
}

/// The port that the first `n` port sites give vertex `k`: site `j` carries
/// port `j / 2`, and a later site wins over an earlier one.
pub open spec fn port_upto(
    sites: Seq<PortPosition>,
    ports: Seq<PortData>,
    n: int,
    k: VKey,
) -> Option<PortData>
    decreases n,
{
    if n <= 0 {
        None
    } else if vkey_of(sites[n - 1].axial_coordinates, sites[n - 1].is_bottom) == k {
        Some(ports[(n - 1) / 2])
    } else {
        port_upto(sites, ports, n - 1, k)
    }
}

pub open spec fn port_for(sites: Seq<PortPosition>, ports: Seq<PortData>, k: VKey) -> Option<
    PortData,
> {
    port_upto(sites, ports, sites.len() as int, k)
}

/// The cells that the grids of a board of radius `radius` hold: one ring
/// beyond the hexes, for the vertices and edges on the boundary.
pub open spec fn grid_contains(radius: int, q: int, r: int) -> bool {
    -radius - 1 <= q <= radius + 1 && -radius - 1 <= r <= radius + 1
}

/// Largest board radius: it keeps every address and position of the lattice
/// far inside the machine integers.
pub const MAX_RADIUS: u8 = 250;

impl Board {
    pub closed spec fn spec_radius(&self) -> int {
        self.radius as int
    }

    pub closed spec fn side(&self) -> int {
        2 * self.radius + 3
    }

    pub closed spec fn in_grid(&self, q: int, r: int) -> bool {
        grid_contains(self.radius as int, q, r)
    }

    /// Position of cell `(q, r)` in the flat grids.
    pub closed spec fn cell(&self, q: int, r: int) -> int {
        (q + self.radius + 1) * self.side() + (r + self.radius + 1)
    }

    /// The hexes of the board, by axial address.
    pub closed spec fn hex_map(&self) -> Map<(int, int), Hex> {
        Map::new(
            |k: (int, int)| self.in_grid(k.0, k.1) && self.hexes@[self.cell(k.0, k.1)].is_some(),
            |k: (int, int)| self.hexes@[self.cell(k.0, k.1)].unwrap(),
        )
    }

    pub closed spec fn vertex_slot(&self, k: VKey) -> Option<Vertex> {
        let c = self.vertices@[self.cell(k.0, k.1)];
        if k.2 {
            c.bottom
        } else {
            c.top
        }
    }

    /// The vertices of the board, by vertex address.
    pub closed spec fn vertex_map(&self) -> Map<VKey, Vertex> {
        Map::new(
            |k: VKey| self.in_grid(k.0, k.1) && self.vertex_slot(k).is_some(),
            |k: VKey| self.vertex_slot(k).unwrap(),
        )
    }

    pub closed spec fn edge_slot_at(&self, k: EKey) -> Option<Edge> {
        let c = self.edges@[self.cell(k.0, k.1)];
        if k.2 == NORTH() {
            c.north
        } else if k.2 == WEST() {
            c.west
        } else {
            c.east
        }
    }

    /// The edges of the board, by edge address.
    pub closed spec fn edge_map(&self) -> Map<EKey, Edge> {
        Map::new(
            |k: EKey| self.in_grid(k.0, k.1) && 0 <= k.2 < 3 && self.edge_slot_at(k).is_some(),
            |k: EKey| self.edge_slot_at(k).unwrap(),
        )
    }

    pub closed spec fn port_list(&self) -> Seq<PortData> {
        self.ports@
    }

    pub closed spec fn port_sites(&self) -> Seq<PortPosition> {
        self.port_vertices@
    }

    /// Storage is consistent: three grids of `side * side` cells, a port for
    /// every pair of port sites.
    pub closed spec fn wf(&self) -> bool {
        &&& self.radius <= MAX_RADIUS
        &&& self.hexes@.len() == self.side() * self.side()
        &&& self.vertices@.len() == self.side() * self.side()
        &&& self.edges@.len() == self.side() * self.side()
        &&& self.port_vertices@.len() <= 2 * self.ports@.len()
    }

    /// The lattice is complete: one hex per axial address within the radius,
    /// one vertex per corner and one edge per side of those hexes, each at its
    /// world position.
    pub open spec fn lattice_ok(&self) -> bool {
        &&& forall|k: (int, int)| #[trigger]
            self.hex_map().contains_key(k) <==> on_board(self.spec_radius(), k.0, k.1)
        &&& forall|k: (int, int)| #[trigger]
            self.hex_map().contains_key(k) ==> self.hex_map()[k].center_coordinates.x == center_x(
                k.0,
                k.1,
            ) && self.hex_map()[k].center_coordinates.z == center_z(k.0, k.1) && tile_ok(
                k.0,
                k.1,
                self.hex_map()[k].hex_data,
            )
        &&& forall|k: VKey| #[trigger]
            self.vertex_map().contains_key(k) <==> vertex_on_board(self.spec_radius(), k)
        &&& forall|k: VKey| #[trigger]
            self.vertex_map().contains_key(k) ==> self.vertex_map()[k].world_coordinates.x
                == vertex_world_x(k) && self.vertex_map()[k].world_coordinates.z
                == vertex_world_z(k)
        &&& forall|k: EKey| #[trigger]
            self.edge_map().contains_key(k) <==> edge_on_board(self.spec_radius(), k)
        &&& forall|k: EKey| #[trigger]
            self.edge_map().contains_key(k) ==> self.edge_map()[k].world_coordinates.x
                == edge_world_x(k) && self.edge_map()[k].world_coordinates.z == edge_world_z(k)
    }

    pub proof fn lemma_radius_bound(&self)
        requires
            self.wf(),
        ensures
            0 <= self.spec_radius() <= MAX_RADIUS,
            self.port_sites().len() <= 2 * self.port_list().len(),
    {
    }

    pub proof fn lemma_maps_in_grid(&self)
        ensures
            forall|k: (int, int)| #[trigger]
                self.hex_map().contains_key(k) ==> grid_contains(self.spec_radius(), k.0, k.1),
            forall|k: VKey| #[trigger]
                self.vertex_map().contains_key(k) ==> grid_contains(self.spec_radius(), k.0, k.1),
            forall|k: EKey| #[trigger]
                self.edge_map().contains_key(k) ==> grid_contains(self.spec_radius(), k.0, k.1) && 0
                    <= k.2 < 3,
    {
    }

    /// The port table: what each port accepts.
    pub fn ports(&self) -> (p: &Vec<PortData>)
        ensures
            p@ == self.port_list(),
    {
        &self.ports
    }

    /// The port table: the vertices of port `j / 2` are sites `j`.
    pub fn port_vertices(&self) -> (p: &Vec<PortPosition>)
        ensures
            p@ == self.port_sites(),
    {
        &self.port_vertices
    }

    proof fn lemma_cell(&self, q: int, r: int)
        requires
            self.in_grid(q, r),
        ensures
            0 <= self.cell(q, r) < self.side() * self.side(),
    {
        let s = self.side();
        let a = q + self.radius + 1;
        let b = r + self.radius + 1;
        assert(0 <= a * s + b < s * s) by (nonlinear_arith)
            requires
                0 <= a < s,
                0 <= b < s,
        ;
    }

    proof fn lemma_cell_injective(&self, q1: int, r1: int, q2: int, r2: int)
        requires
            self.in_grid(q1, r1),
            self.in_grid(q2, r2),
            self.cell(q1, r1) == self.cell(q2, r2),
        ensures
            q1 == q2 && r1 == r2,
    {
        let s = self.side();
        let a1 = q1 + self.radius + 1;
        let b1 = r1 + self.radius + 1;
        let a2 = q2 + self.radius + 1;
        let b2 = r2 + self.radius + 1;
        assert(a1 == a2 && b1 == b2) by (nonlinear_arith)
            requires
                0 <= a1 < s,
                0 <= b1 < s,
                0 <= a2 < s,
                0 <= b2 < s,
                a1 * s + b1 == a2 * s + b2,
        ;
    }

    /// Flat index of cell `(q, r)`, if the cell is in the grids.
    fn cell_index(&self, q: i64, r: i64) -> (c: Option<usize>)
        requires
            self.wf(),
        ensures
            match c {
                Some(i) => self.in_grid(q as int, r as int) && i == self.cell(q as int, r as int)
                    && i < self.hexes@.len(),
                None => !self.in_grid(q as int, r as int),
            },
    {
        let rad = self.radius as i64;
        if q < -rad - 1 || q > rad + 1 || r < -rad - 1 || r > rad + 1 {
            return None;
        }
        proof {
            self.lemma_cell(q as int, r as int);
        }
        let side = 2 * rad + 3;
        let a = q + rad + 1;
        assert(0 <= a * side <= 503 * 503) by (nonlinear_arith)
            requires
                0 <= a < side,
                side <= 503,
        ;
        Some((a * side + (r + rad + 1)) as usize)
    }

    pub fn radius(&self) -> (r: u8)
        ensures
            r == self.spec_radius(),
    {
        self.radius
    }

    /// An empty board of the given radius, with the standard port table.
    pub fn create_new(radius: u8) -> (b: Board)
        requires
            radius <= MAX_RADIUS,
        ensures
            b.wf(),
            b.spec_radius() == radius,
            b.hex_map().is_empty(),
            b.vertex_map().is_empty(),
            b.edge_map().is_empty(),
            b.port_list() == default_ports(),
            b.port_sites() == default_port_sites(),
    {
        let side: usize = 2 * radius as usize + 3;
        assert(side * side <= 503 * 503) by (nonlinear_arith)
            requires
                side <= 503,
        ;
        let n: usize = side * side;
        let mut hexes: Vec<Option<Hex>> = Vec::new();
        let mut vertices: Vec<HexVertex> = Vec::new();
        let mut edges: Vec<HexEdge> = Vec::new();
        for i in 0..n
            invariant
                n == side * side,
                hexes@.len() == i,
                vertices@.len() == i,
                edges@.len() == i,
                forall|j: int| 0 <= j < i ==> (#[trigger] hexes@[j]).is_none(),
                forall|j: int|
                    0 <= j < i ==> (#[trigger] vertices@[j]).top.is_none()
                        && vertices@[j].bottom.is_none(),
                forall|j: int|
                    0 <= j < i ==> (#[trigger] edges@[j]).north.is_none() && edges@[j].west.is_none()
                        && edges@[j].east.is_none(),
        {
            hexes.push(None);
            vertices.push(HexVertex { top: None, bottom: None });
            edges.push(HexEdge { north: None, west: None, east: None });
        }
        let ports = vec![
            PortData { input: ResourceType::Wheat, num_inputs: 2 },
            PortData { input: ResourceType::Anything, num_inputs: 3 },
            PortData { input: ResourceType::Wood, num_inputs: 2 },
            PortData { input: ResourceType::Brick, num_inputs: 2 },
            PortData { input: ResourceType::Anything, num_inputs: 3 },
            PortData { input: ResourceType::Anything, num_inputs: 3 },
            PortData { input: ResourceType::Sheep, num_inputs: 2 },
            PortData { input: ResourceType::Anything, num_inputs: 3 },
            PortData { input: ResourceType::Stone, num_inputs: 2 },
        ];
        let port_vertices = vec![
            PortPosition { axial_coordinates: Axial { q: 1, r: -2 }, is_bottom: false },
            PortPosition { axial_coordinates: Axial { q: 1, r: -3 }, is_bottom: true },
            PortPosition { axial_coordinates: Axial { q: 2, r: -2 }, is_bottom: false },
            PortPosition { axial_coordinates: Axial { q: 3, r: -3 }, is_bottom: true },
            PortPosition { axial_coordinates: Axial { q: 3, r: -2 }, is_bottom: true },
            PortPosition { axial_coordinates: Axial { q: 2, r: 0 }, is_bottom: false },
            PortPosition { axial_coordinates: Axial { q: 2, r: 0 }, is_bottom: true },
            PortPosition { axial_coordinates: Axial { q: 1, r: 2 }, is_bottom: false },
            PortPosition { axial_coordinates: Axial { q: 0, r: 3 }, is_bottom: false },
            PortPosition { axial_coordinates: Axial { q: 0, r: 2 }, is_bottom: true },
            PortPosition { axial_coordinates: Axial { q: -2, r: 1 }, is_bottom: true },
            PortPosition { axial_coordinates: Axial { q: -3, r: 2 }, is_bottom: false },
            PortPosition { axial_coordinates: Axial { q: -1, r: -2 }, is_bottom: true },
            PortPosition { axial_coordinates: Axial { q: -1, r: -1 }, is_bottom: false },
            PortPosition { axial_coordinates: Axial { q: -3, r: 1 }, is_bottom: false },
            PortPosition { axial_coordinates: Axial { q: -2, r: -1 }, is_bottom: true },
            PortPosition { axial_coordinates: Axial { q: -1, r: 2 }, is_bottom: true },
            PortPosition { axial_coordinates: Axial { q: -2, r: 3 }, is_bottom: false },
        ];
        let b = Board { radius, hexes, vertices, edges, ports, port_vertices };
        assert forall|q: int, r: int| b.in_grid(q, r) implies 0 <= #[trigger] b.cell(q, r) < n by {
            b.lemma_cell(q, r);
        }
        assert(b.hex_map() =~= Map::empty());
        assert(b.vertex_map() =~= Map::empty());
        assert(b.edge_map() =~= Map::empty());
        assert(b.port_list() =~= default_ports());
        assert(b.port_sites() =~= default_port_sites());
        b
    }

    /// The hex at `axial`, if the lattice has one there.
    pub fn getHexFromAxial(&self, axial: Axial) -> (h: Option<Hex>)
        requires
            self.wf(),
        ensures
            h == map_get(self.hex_map(), (axial.q as int, axial.r as int)),
    {
        self.hex_at(axial.q as i64, axial.r as i64)
    }

    /// The vertex at `(axial, is_bottom)`, if the lattice has one there.
    pub fn getVertexFromAxial(&self, axial: Axial, is_bottom: bool) -> (v: Option<Vertex>)
        requires
            self.wf(),
        ensures
            v == map_get(self.vertex_map(), vkey_of(axial, is_bottom)),
    {
        self.vertex_at(axial.q as i64, axial.r as i64, is_bottom)
    }

    /// The edge at `axial` in the slot the flags name, if the lattice has one.
    pub fn getEdgeFromAxial(&self, axial: Axial, is_north: bool, is_west: bool, is_east: bool) -> (e:
        Option<Edge>)
        requires
            self.wf(),
        ensures
            e == map_get(self.edge_map(), ekey_of(axial, is_north, is_west, is_east)),
    {
        let s: u8 = if is_north {
            0
        } else if is_east {
            2
        } else {
            1
        };
        self.edge_at(axial.q as i64, axial.r as i64, s)
    }

    pub(crate) fn hex_at(&self, q: i64, r: i64) -> (h: Option<Hex>)
        requires
            self.wf(),
        ensures
            h == map_get(self.hex_map(), (q as int, r as int)),
    {
        match self.cell_index(q, r) {
            Some(i) => self.hexes[i],
            None => None,
        }
    }

    pub(crate) fn vertex_at(&self, q: i64, r: i64, is_bottom: bool) -> (v: Option<Vertex>)
        requires
            self.wf(),
        ensures
            v == map_get(self.vertex_map(), (q as int, r as int, is_bottom)),
    {
        match self.cell_index(q, r) {
            Some(i) => {
                let c = self.vertices[i];
                if is_bottom {
                    c.bottom
                } else {
                    c.top
                }
            },
            None => None,
        }
    }

    pub(crate) fn edge_at(&self, q: i64, r: i64, s: u8) -> (e: Option<Edge>)
        requires
            self.wf(),
            s < 3,
        ensures
            e == map_get(self.edge_map(), (q as int, r as int, s as int)),
    {
        match self.cell_index(q, r) {
            Some(i) => {
                let c = self.edges[i];
                if s == 0 {
                    c.north
                } else if s == 1 {
                    c.west
                } else {
                    c.east
                }
            },
            None => None,
        }
    }
    /// The same board with one vertex slot changed: the key is `(q, r, b)`.
    pub(crate) fn set_vertex(&mut self, q: i64, r: i64, b: bool, v: Vertex)
        requires
            old(self).wf(),
            grid_contains(old(self).spec_radius(), q as int, r as int),
        ensures
            final(self).wf(),
            final(self).spec_radius() == old(self).spec_radius(),
            final(self).hex_map() == old(self).hex_map(),
            final(self).vertex_map() == old(self).vertex_map().insert((q as int, r as int, b), v),
            final(self).edge_map() == old(self).edge_map(),
            final(self).port_list() == old(self).port_list(),
            final(self).port_sites() == old(self).port_sites(),
    {
        let i = self.cell_index(q, r).unwrap();
        let mut c = self.vertices[i];
        if b {
            c.bottom = Some(v);
        } else {
            c.top = Some(v);
        }
        self.vertices.set(i, c);
        proof {
            let k0 = (q as int, r as int, b);
            assert forall|k: VKey| self.in_grid(k.0, k.1) && k != k0 implies #[trigger] self.vertex_slot(
                k,
            ) == old(self).vertex_slot(k) by {
                if self.cell(k.0, k.1) == self.cell(q as int, r as int) {
                    self.lemma_cell_injective(k.0, k.1, q as int, r as int);
                }
                self.lemma_cell(k.0, k.1);
            }
            assert(self.vertex_map() =~= old(self).vertex_map().insert(k0, v));
            assert(self.hex_map() =~= old(self).hex_map());
            assert(self.edge_map() =~= old(self).edge_map());
        }
    }

    /// The same board with one edge slot changed: the key is `(q, r, s)`.
    pub(crate) fn set_edge(&mut self, q: i64, r: i64, s: u8, e: Edge)
        requires
            old(self).wf(),
            grid_contains(old(self).spec_radius(), q as int, r as int),
            s < 3,
        ensures
            final(self).wf(),
            final(self).spec_radius() == old(self).spec_radius(),
            final(self).hex_map() == old(self).hex_map(),
            final(self).vertex_map() == old(self).vertex_map(),
            final(self).edge_map() == old(self).edge_map().insert((q as int, r as int, s as int), e),
            final(self).port_list() == old(self).port_list(),
            final(self).port_sites() == old(self).port_sites(),
    {
        let i = self.cell_index(q, r).unwrap();
        let mut c = self.edges[i];
        if s == 0 {
            c.north = Some(e);
        } else if s == 1 {
            c.west = Some(e);
        } else {
            c.east = Some(e);
        }
        self.edges.set(i, c);
        proof {
            let k0 = (q as int, r as int, s as int);
            assert forall|k: EKey|
                self.in_grid(k.0, k.1) && 0 <= k.2 < 3 && k != k0 implies #[trigger] self.edge_slot_at(
                k,
            ) == old(self).edge_slot_at(k) by {
                if self.cell(k.0, k.1) == self.cell(q as int, r as int) {
                    self.lemma_cell_injective(k.0, k.1, q as int, r as int);
                }
                self.lemma_cell(k.0, k.1);
            }
            assert(self.edge_map() =~= old(self).edge_map().insert(k0, e));
            assert(self.hex_map() =~= old(self).hex_map());
            assert(self.vertex_map() =~= old(self).vertex_map());
        }
    }

    /// The same board with one hex slot changed.
    pub(crate) fn set_hex(&mut self, q: i64, r: i64, h: Hex)
        requires
            old(self).wf(),
            grid_contains(old(self).spec_radius(), q as int, r as int),
        ensures
            final(self).wf(),
            final(self).spec_radius() == old(self).spec_radius(),
            final(self).hex_map() == old(self).hex_map().insert((q as int, r as int), h),
            final(self).vertex_map() == old(self).vertex_map(),
            final(self).edge_map() == old(self).edge_map(),
            final(self).port_list() == old(self).port_list(),
            final(self).port_sites() == old(self).port_sites(),
    {
        let i = self.cell_index(q, r).unwrap();
        self.hexes.set(i, Some(h));
        proof {
            let k0 = (q as int, r as int);
            assert forall|k: (int, int)| self.in_grid(k.0, k.1) && k != k0 implies self.hexes@[
                #[trigger] self.cell(k.0, k.1)] == old(self).hexes@[self.cell(k.0, k.1)] by {
                if self.cell(k.0, k.1) == self.cell(q as int, r as int) {
                    self.lemma_cell_injective(k.0, k.1, q as int, r as int);
                }
                self.lemma_cell(k.0, k.1);
            }
            assert(self.hex_map() =~= old(self).hex_map().insert(k0, h));
            assert(self.vertex_map() =~= old(self).vertex_map());
            assert(self.edge_map() =~= old(self).edge_map());
        }
    }
}

} // verus!