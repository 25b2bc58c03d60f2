use vstd::prelude::*;

use crate::board::{
    corner_key, ekey_of, etuple, htuple, lemma_on_board_bounds, on_board, side_key, vertex_world_x,
    vertex_world_z, vkey_of, vtuple, Board, EKey, VKey, MAX_RADIUS,
};
use crate::coords::{
    center_x, center_z, corner_dx, corner_dz, edge_dx, edge_dz, frac_q, frac_r, hex_of_world,
    lemma_center_round_trip, round_err, round_frac, within_world_limit, Axial, WorldPos, QUARTER,
    WORLD_LIMIT,
};

verus! {

/// What a world position resolves to.
#[derive(Copy, Clone, Debug, PartialEq, Eq, Structural)]
pub enum Address {
    Hex(Axial),
    Vertex(Axial, bool),
    Edge(Axial, bool, bool, bool),
}

/// A point at offset `(dx, dz)` from a site is close enough to pick it: within
/// a quarter of the hex radius (`dz` steps are sqrt(3) times longer). The box
/// on each coordinate follows from the disc, and is stated for the solver.
pub open spec fn close_offset(dx: int, dz: int) -> bool {
    &&& -1000 <= dx <= 1000
    &&& -1000 <= dz <= 1000
    &&& dx * dx + 3 * (dz * dz) <= 1000 * 1000
}

pub open spec fn close(px: int, pz: int, w: WorldPos) -> bool {
    close_offset(px - w.x, pz - w.z)
}

/// The board hex under world point `w`, if there is one.
pub open spec fn hex_pick(radius: int, w: WorldPos) -> Option<(int, int)> {
    if within_world_limit(w) && on_board(radius, hex_of_world(w.x as int, w.z as int).0, hex_of_world(
        w.x as int,
        w.z as int,
    ).1) {
        Some(hex_of_world(w.x as int, w.z as int))
    } else {
        None
    }
}

/// The first corner, from `i` on, of hex `h` that is close to `w`; 6 if none is.
pub open spec fn first_close_corner(h: (int, int), w: WorldPos, i: int) -> int
    decreases 6 - i,
{
    if i >= 6 {
        6
    } else if close(center_x(h.0, h.1) + corner_dx(i), center_z(h.0, h.1) + corner_dz(i), w) {
        i
    } else {
        first_close_corner(h, w, i + 1)
    }
}

/// The first side, from `i` on, of hex `h` whose midpoint is close to `w`; 6 if
/// none is.
pub open spec fn first_close_side(h: (int, int), w: WorldPos, i: int) -> int
    decreases 6 - i,
{
    if i >= 6 {
        6
    } else if close(center_x(h.0, h.1) + edge_dx(i), center_z(h.0, h.1) + edge_dz(i), w) {
        i
    } else {
        first_close_side(h, w, i + 1)
    }
}

/// The vertex picked at `w`: a corner, close to `w`, of the board hex under `w`.
pub open spec fn vertex_pick(radius: int, w: WorldPos) -> Option<VKey> {
    match hex_pick(radius, w) {
        Some(h) => {
            let i = first_close_corner(h, w, 0);
            if i < 6 {
                Some(corner_key(h.0, h.1, i))
            } else {
                None
            }
        },
        None => None,
    }
}

/// The edge picked at `w`: a side midpoint, close to `w`, of the board hex
/// under `w`.
pub open spec fn edge_pick(radius: int, w: WorldPos) -> Option<EKey> {
    match hex_pick(radius, w) {
        Some(h) => {
            let i = first_close_side(h, w, 0);
            if i < 6 {
                Some(side_key(h.0, h.1, i))
            } else {
                None
            }
        },
        None => None,
    }
}

/// What a pick at `w` resolves to: a vertex before an edge, and the hex itself
/// only where centers are allowed.
pub open spec fn resolve(radius: int, w: WorldPos, centers_allowed: bool) -> Option<Address> {
    if vertex_pick(radius, w).is_some() {
        let k = vtuple(vertex_pick(radius, w).unwrap());
        Some(Address::Vertex(k.0, k.1))
    } else if edge_pick(radius, w).is_some() {
        let k = etuple(edge_pick(radius, w).unwrap());
        Some(Address::Edge(k.0, k.1, k.2, k.3))
    } else if centers_allowed && hex_pick(radius, w).is_some() {
        Some(Address::Hex(htuple(hex_pick(radius, w).unwrap())))
    } else {
        None
    }
}

/// Whether `(px, pz)` is within picking distance of `w`.
fn is_close(px: i64, pz: i64, w: WorldPos) -> (c: bool)
    requires
        -2 * WORLD_LIMIT <= px <= 2 * WORLD_LIMIT,
        -2 * WORLD_LIMIT <= pz <= 2 * WORLD_LIMIT,
        within_world_limit(w),
    ensures
        c == close(px as int, pz as int, w),
{
    let dx = px - w.x;
    let dz = pz - w.z;
    if dx < -QUARTER || dx > QUARTER || dz < -QUARTER || dz > QUARTER {
        return false;
    }
    assert(0 <= dx * dx <= 1000 * 1000 && 0 <= dz * dz <= 1000 * 1000) by (nonlinear_arith)
        requires
            -1000 <= dx <= 1000,
            -1000 <= dz <= 1000,
    ;
    dx * dx + 3 * (dz * dz) <= QUARTER * QUARTER
}

proof fn lemma_round_near(k: int, t: int)
    requires
        -6000 < t < 6000,
    ensures
        round_frac(12000 * k + t) == k,
        round_err(12000 * k + t) == if t < 0 {
            -t
        } else {
            t
        },
{
}

/// The exact position of a bottom vertex rounds to the hex below it, that of
/// a top vertex to the hex above it.
proof fn lemma_vertex_rounding(k: VKey)
    ensures
        hex_of_world(vertex_world_x(k), vertex_world_z(k)) == if k.2 {
            (k.0, k.1 + 1)
        } else {
            (k.0, k.1 - 1)
        },
{
    let (a, b) = (k.0, k.1);
    let fq = frac_q(vertex_world_x(k), vertex_world_z(k));
    let fr = frac_r(vertex_world_x(k), vertex_world_z(k));
    if k.2 {
        assert(fq == 12000 * a - 4000);
        assert(fr == 12000 * (b + 1) - 4000);
        assert(-fq - fr == 12000 * (-a - b) - 4000);
        lemma_round_near(a, -4000);
        lemma_round_near(b + 1, -4000);
        lemma_round_near(-a - b, -4000);
    } else {
        assert(fq == 12000 * a + 4000);
        assert(fr == 12000 * (b - 1) + 4000);
        assert(-fq - fr == 12000 * (-a - b) + 4000);
        lemma_round_near(a, 4000);
        lemma_round_near(b - 1, 4000);
        lemma_round_near(-a - b, 4000);
    }
}

/// A built vertex resolves from its own stored world position, wherever that
/// position rounds to a hex of the board (on the rim it may round outside).
pub proof fn lemma_vertex_resolves_at_its_position(b: Board, k: VKey)
    requires
        b.wf(),
        b.lattice_ok(),
        b.vertex_map().contains_key(k),
        on_board(
            b.spec_radius(),
            hex_of_world(
                b.vertex_map()[k].world_coordinates.x as int,
                b.vertex_map()[k].world_coordinates.z as int,
            ).0,
            hex_of_world(
                b.vertex_map()[k].world_coordinates.x as int,
                b.vertex_map()[k].world_coordinates.z as int,
            ).1,
        ),
    ensures
        vertex_pick(b.spec_radius(), b.vertex_map()[k].world_coordinates) == Some(k),
{
    let w = b.vertex_map()[k].world_coordinates;
    lemma_vertex_rounding(k);
    let h = hex_of_world(w.x as int, w.z as int);
    b.lemma_radius_bound();
    lemma_on_board_bounds(b.spec_radius(), h.0, h.1);
    assert(within_world_limit(w));
    reveal_with_fuel(first_close_corner, 6);
    if k.2 {
        assert(corner_key(h.0, h.1, 4) == k);
        assert(first_close_corner(h, w, 0) == 4);
    } else {
        assert(corner_key(h.0, h.1, 1) == k);
        assert(first_close_corner(h, w, 0) == 1);
    }
}

/// A hex center is no site: it resolves to neither a vertex nor an edge.
pub proof fn lemma_center_is_no_site(b: Board, q: int, r: int)
    requires
        b.wf(),
        on_board(b.spec_radius(), q, r),
    ensures
        vertex_pick(
            b.spec_radius(),
            WorldPos { x: center_x(q, r) as i64, z: center_z(q, r) as i64 },
        ).is_none(),
        edge_pick(
            b.spec_radius(),
            WorldPos { x: center_x(q, r) as i64, z: center_z(q, r) as i64 },
        ).is_none(),
        resolve(
            b.spec_radius(),
            WorldPos { x: center_x(q, r) as i64, z: center_z(q, r) as i64 },
            false,
        ).is_none(),
{
    b.lemma_radius_bound();
    lemma_on_board_bounds(b.spec_radius(), q, r);
    let w = WorldPos { x: center_x(q, r) as i64, z: center_z(q, r) as i64 };
    lemma_center_round_trip(q, r);
    assert(within_world_limit(w));
    assert(hex_pick(b.spec_radius(), w) == Some((q, r)));
    reveal_with_fuel(first_close_corner, 7);
    reveal_with_fuel(first_close_side, 7);
    assert(first_close_corner((q, r), w, 0) == 6);
    assert(first_close_side((q, r), w, 0) == 6);
}

/// A pick resolves only to sites of the lattice: the vertex or edge picked
/// at any world position exists on a built board.
pub proof fn lemma_picks_are_sites(b: Board, w: WorldPos)
    requires
        b.wf(),
        b.lattice_ok(),
    ensures
        vertex_pick(b.spec_radius(), w) matches Some(k) ==> b.vertex_map().contains_key(k),
        edge_pick(b.spec_radius(), w) matches Some(k) ==> b.edge_map().contains_key(k),
{
    if let Some(h) = hex_pick(b.spec_radius(), w) {
        let i = first_close_corner(h, w, 0);
        if i < 6 {
            lemma_first_close_corner_range(h, w, 0);
            crate::lattice::lemma_vertices_are_corners(b, corner_key(h.0, h.1, i));
        }
        let j = first_close_side(h, w, 0);
        if j < 6 {
            lemma_first_close_side_range(h, w, 0);
            crate::lattice::lemma_sides_are_edges(b, h.0, h.1, j);
        }
    }
}

proof fn lemma_first_close_corner_range(h: (int, int), w: WorldPos, i: int)
    requires
        0 <= i <= 6,
    ensures
        i <= first_close_corner(h, w, i) <= 6,
    decreases 6 - i,
{
    if i < 6 {
        lemma_first_close_corner_range(h, w, i + 1);
    }
}

proof fn lemma_first_close_side_range(h: (int, int), w: WorldPos, i: int)
    requires
        0 <= i <= 6,
    ensures
        i <= first_close_side(h, w, i) <= 6,
    decreases 6 - i,
{
    if i < 6 {
        lemma_first_close_side_range(h, w, i + 1);
    }
}

impl Board {
    /// The board hex under a world position, if there is one.
    pub fn hexWorldToAxial(&self, world: WorldPos) -> (h: Option<Axial>)
        requires
            self.wf(),
        ensures
            match h {
                Some(a) => hex_pick(self.spec_radius(), world) == Some((a.q as int, a.r as int)),
                None => hex_pick(self.spec_radius(), world).is_none(),
            },
    {
        if world.x < -WORLD_LIMIT || world.x > WORLD_LIMIT || world.z < -WORLD_LIMIT || world.z
            > WORLD_LIMIT {
            return None;
        }
        let frac = Self::worldToAxialFractional(world);
        let rounded = Self::hexAxialRound(frac);
        let cube = Self::hexToCube(rounded.q, rounded.r);
        let radius = self.radius() as i64;
        if Self::cubeToDist(cube) > radius {
            return None;
        }
        Some(rounded)
    }

    /// The vertex picked at a world position: a corner, close to it, of the
    /// board hex under it.
    pub fn vertexWorldToAxial(&self, world: WorldPos) -> (v: Option<(Axial, bool)>)
        requires
            self.wf(),
        ensures
            match v {
                Some(p) => vertex_pick(self.spec_radius(), world) == Some(vkey_of(p.0, p.1)),
                None => vertex_pick(self.spec_radius(), world).is_none(),
            },
    {
        let axial = match self.hexWorldToAxial(world) {
            Some(a) => a,
            None => {
                return None;
            },
        };
        let ghost h = (axial.q as int, axial.r as int);
        proof {
            self.lemma_radius_bound();
            lemma_on_board_bounds(self.spec_radius(), h.0, h.1);
        }
        let center = Self::hexAxialToWorld(axial.q, axial.r);
        let mut i: i8 = 0;
        while i < 6
            invariant
                0 <= i <= 6,
                within_world_limit(world),
                within_world_limit(center),
                center.x == center_x(h.0, h.1),
                center.z == center_z(h.0, h.1),
                h == (axial.q as int, axial.r as int),
                hex_pick(self.spec_radius(), world) == Some(h),
                -MAX_RADIUS <= h.0 <= MAX_RADIUS,
                -MAX_RADIUS <= h.1 <= MAX_RADIUS,
                first_close_corner(h, world, 0) == first_close_corner(h, world, i as int),
            decreases 6 - i,
        {
            let corner = Self::getCorners(center, i);
            if is_close(corner.x, corner.z, world) {
                let q = axial.q + Self::vertexQOffsetFromI(i) as i32;
                let r = axial.r + Self::vertexROffsetFromI(i) as i32;
                return Some((Axial { q, r }, i % 2 == 0));
            }
            i += 1;
        }
        None
    }

    /// The edge picked at a world position: a side midpoint, close to it, of
    /// the board hex under it. The flags name its slot: one of them is set.
    pub fn edgeWorldToAxial(&self, world: WorldPos) -> (e: Option<(Axial, bool, bool, bool)>)
        requires
            self.wf(),
        ensures
            match e {
                Some(p) => edge_pick(self.spec_radius(), world).is_some() && p == etuple(
                    edge_pick(self.spec_radius(), world).unwrap(),
                ),
                None => edge_pick(self.spec_radius(), world).is_none(),
            },
    {
        let axial = match self.hexWorldToAxial(world) {
            Some(a) => a,
            None => {
                return None;
            },
        };
        let ghost h = (axial.q as int, axial.r as int);
        proof {
            self.lemma_radius_bound();
            lemma_on_board_bounds(self.spec_radius(), h.0, h.1);
        }
        let center = Self::hexAxialToWorld(axial.q, axial.r);
        let mut i: i8 = 0;
        while i < 6
            invariant
                0 <= i <= 6,
                within_world_limit(world),
                within_world_limit(center),
                center.x == center_x(h.0, h.1),
                center.z == center_z(h.0, h.1),
                h == (axial.q as int, axial.r as int),
                hex_pick(self.spec_radius(), world) == Some(h),
                -MAX_RADIUS <= h.0 <= MAX_RADIUS,
                -MAX_RADIUS <= h.1 <= MAX_RADIUS,
                first_close_side(h, world, 0) == first_close_side(h, world, i as int),
            decreases 6 - i,
        {
            let mid = Self::getEdges(center, i);
            if is_close(mid.x, mid.z, world) {
                let q = axial.q + Self::edgeQOffsetFromI(i) as i32;
                let r = axial.r + Self::edgeROffsetFromI(i) as i32;
                return Some((Axial { q, r }, i == 0 || i == 3, i == 2 || i == 5, i == 1 || i == 4));
            }
            i += 1;
        }
        None
    }

    /// Resolves a world position to the vertex or edge picked there, or, where
    /// `centers_allowed`, to the board hex under it.
    pub fn resolveWorldPosition(&self, world: WorldPos, centers_allowed: bool) -> (a: Option<
        Address,
    >)
        requires
            self.wf(),
        ensures
            a == resolve(self.spec_radius(), world, centers_allowed),
    {
        if let Some(v) = self.vertexWorldToAxial(world) {
            proof {
                self.lemma_radius_bound();
                let k = vertex_pick(self.spec_radius(), world).unwrap();
                let h = hex_pick(self.spec_radius(), world).unwrap();
                lemma_on_board_bounds(self.spec_radius(), h.0, h.1);
                assert(vtuple(k) == v);
            }
            return Some(Address::Vertex(v.0, v.1));
        }
        if let Some(e) = self.edgeWorldToAxial(world) {
            return Some(Address::Edge(e.0, e.1, e.2, e.3));
        }
        if centers_allowed {
            if let Some(h) = self.hexWorldToAxial(world) {
                return Some(Address::Hex(h));
            }
        }
        None
    }
    /// World position of vertex `(q_offset, r_offset, is_bottom)` as a corner
    /// of the board hex under `center`; none if there is no such hex or the
    /// vertex is not one of its corners.
    pub fn vertexAxialToWorld(&self, q_offset: i32, r_offset: i32, center: WorldPos, is_bottom: bool) -> (w:
        Option<WorldPos>)
        requires
            self.wf(),
        ensures
            w.is_some() <==> hex_pick(self.spec_radius(), center).is_some() && exists|i: int|
                0 <= i < 6 && #[trigger] corner_key(
                    hex_pick(self.spec_radius(), center).unwrap().0,
                    hex_pick(self.spec_radius(), center).unwrap().1,
                    i,
                ) == (q_offset as int, r_offset as int, is_bottom),
            w.is_some() ==> exists|i: int|
                0 <= i < 6 && #[trigger] corner_key(
                    hex_pick(self.spec_radius(), center).unwrap().0,
                    hex_pick(self.spec_radius(), center).unwrap().1,
                    i,
                ) == (q_offset as int, r_offset as int, is_bottom) && w.unwrap().x == center.x
                    + corner_dx(i) && w.unwrap().z == center.z + corner_dz(i),
    {
        let axial = match self.hexWorldToAxial(center) {
            Some(a) => a,
            None => {
                return None;
            },
        };
        let dq = q_offset as i64 - axial.q as i64;
        let dr = r_offset as i64 - axial.r as i64;
        match Self::vertexIFromOffset(dq, dr, is_bottom) {
            Some(i) => {
                let w = Self::getCorners(center, i);
                let ghost h = hex_pick(self.spec_radius(), center).unwrap();
                assert(corner_key(h.0, h.1, i as int) == (q_offset as int, r_offset as int, is_bottom));
                Some(w)
            },
            None => None,
        }
    }

    /// World position of edge `(q_offset, r_offset)` in the slot the flags
    /// name, as a side midpoint of the board hex under `center`; none if there
    /// is no such hex or the edge is not one of its sides.
    pub fn edgeAxialToWorld(
        &self,
        q_offset: i32,
        r_offset: i32,
        center: WorldPos,
        is_north: bool,
        is_west: bool,
        is_east: bool,
    ) -> (w: Option<WorldPos>)
        requires
            self.wf(),
        ensures
            w.is_some() <==> hex_pick(self.spec_radius(), center).is_some() && exists|i: int|
                0 <= i < 6 && #[trigger] side_key(
                    hex_pick(self.spec_radius(), center).unwrap().0,
                    hex_pick(self.spec_radius(), center).unwrap().1,
                    i,
                ) == ekey_of(Axial { q: q_offset, r: r_offset }, is_north, is_west, is_east),
            w.is_some() ==> exists|i: int|
                0 <= i < 6 && #[trigger] side_key(
                    hex_pick(self.spec_radius(), center).unwrap().0,
                    hex_pick(self.spec_radius(), center).unwrap().1,
                    i,
                ) == ekey_of(Axial { q: q_offset, r: r_offset }, is_north, is_west, is_east)
                    && w.unwrap().x == center.x + edge_dx(i) && w.unwrap().z == center.z + edge_dz(
                    i,
                ),
    {
        let axial = match self.hexWorldToAxial(center) {
            Some(a) => a,
            None => {
                return None;
            },
        };
        let dq = q_offset as i64 - axial.q as i64;
        let dr = r_offset as i64 - axial.r as i64;
        match Self::edgeIFromOffset(dq, dr, is_north, is_west, is_east) {
            Some(i) => {
                let w = Self::getEdges(center, i);
                let ghost h = hex_pick(self.spec_radius(), center).unwrap();
                assert(side_key(h.0, h.1, i as int) == ekey_of(
                    Axial { q: q_offset, r: r_offset },
                    is_north,
                    is_west,
                    is_east,
                ));
                Some(w)
            },
            None => None,
        }
    }
}

} // verus!
