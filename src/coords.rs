use vstd::prelude::*;

use crate::board::Board;

verus! {

// World positions live on an integer grid. Along x one step is a quarter of
// the hex circumradius divided by `QUARTER`; along z one step is that length
// times sqrt(3). With this scaling every hex center, corner and side midpoint
// has integer coordinates, and the fractional axial coordinates of a world
// point are exact rationals over `FRAC_DENOM`.
/// Grid steps in a quarter of the hex circumradius (hex radius plus gap).
pub const QUARTER: i64 = 1000;

/// Common denominator of fractional axial coordinates: twelve quarters.
pub const FRAC_DENOM: i64 = 12000;

/// Largest magnitude of a world coordinate that can be converted to axial.
pub const WORLD_LIMIT: i64 = 0x100_0000_0000;

/// Largest magnitude of a fractional axial numerator that can be rounded.
pub const FRAC_LIMIT: i64 = 0x400_0000_0000;

/// Largest magnitude of a cube component whose distance can be computed.
pub const CUBE_LIMIT: i64 = 0x1000_0000_0000_0000;

/// Axial address of a hex.
#[derive(Copy, Clone, Debug, PartialEq, Eq, Structural)]
pub struct Axial {
    pub q: i32,
    pub r: i32,
}

/// A point on the ground plane, in grid steps (see `QUARTER`).
#[derive(Copy, Clone, Debug, PartialEq, Eq, Structural)]
pub struct WorldPos {
    pub x: i64,
    pub z: i64,
}

/// Fractional axial coordinates `(q / FRAC_DENOM, r / FRAC_DENOM)`.
#[derive(Copy, Clone, Debug, PartialEq, Eq, Structural)]
pub struct FracAxial {
    pub q: i64,
    pub r: i64,
}

/// Cube coordinates; those of a hex satisfy `x + y + z == 0`.
#[derive(Copy, Clone, Debug, PartialEq, Eq, Structural)]
pub struct Cube {
    pub x: i64,
    pub y: i64,
    pub z: i64,
}

pub open spec fn abs(v: int) -> int {
    if v < 0 {
        -v
    } else {
        v
    }
}

/// Number of hex steps from the origin to hex `(q, r)`.
pub open spec fn hex_dist(q: int, r: int) -> int {
    (abs(q) + abs(r) + abs(q + r)) / 2
}

// The spec functions below write `QUARTER` and `FRAC_DENOM` out as literals,
// which keeps their arithmetic linear for the solver.
pub open spec fn center_x(q: int, r: int) -> int {
    6000 * r
}

pub open spec fn center_z(q: int, r: int) -> int {
    1000 * (4 * q + 2 * r)
}

/// Offset of corner `i` from its hex center; corner `i` lies at angle `60 * i`
/// degrees from the x axis.
pub open spec fn corner_dx(i: int) -> int {
    1000 * (if i == 0 {
        4
    } else if i == 1 {
        2
    } else if i == 2 {
        -2
    } else if i == 3 {
        -4
    } else if i == 4 {
        -2
    } else {
        2
    })
}

pub open spec fn corner_dz(i: int) -> int {
    1000 * (if i == 0 || i == 3 {
        0
    } else if i == 1 || i == 2 {
        2
    } else {
        -2
    })
}

/// Offset of the midpoint of side `i` from its hex center; side `i` lies at
/// angle `60 * i - 30` degrees, between corners `i - 1` and `i`.
pub open spec fn edge_dx(i: int) -> int {
    1000 * (if i == 0 || i == 1 {
        3
    } else if i == 3 || i == 4 {
        -3
    } else {
        0
    })
}

pub open spec fn edge_dz(i: int) -> int {
    1000 * (if i == 0 || i == 4 {
        -1
    } else if i == 1 || i == 3 {
        1
    } else if i == 2 {
        2
    } else {
        -2
    })
}

/// Fractional axial numerators of world point `(x, z)`: the inverse of the
/// center map `(q, r) -> (center_x, center_z)`.
pub open spec fn frac_q(x: int, z: int) -> int {
    3 * z - x
}

pub open spec fn frac_r(x: int, z: int) -> int {
    2 * x
}

/// The integer nearest to `n / FRAC_DENOM`, halves rounded away from zero.
pub open spec fn round_frac(n: int) -> int {
    if n >= 0 {
        n / 12000 + if 2 * (n % 12000) >= 12000 { 1int } else { 0int }
    } else {
        -((-n) / 12000 + if 2 * ((-n) % 12000) >= 12000 {
            1int
        } else {
            0int
        })
    }
}

/// Distance from `n / FRAC_DENOM` to its rounding, scaled by `FRAC_DENOM`.
pub open spec fn round_err(n: int) -> int {
    abs(n - 12000 * round_frac(n))
}

/// Cube rounding of the fractional hex `(fq, fr) / FRAC_DENOM`: round the three
/// cube components, then recompute the one with the largest rounding error
/// from the other two.
pub open spec fn cube_round(fq: int, fr: int) -> (int, int) {
    let fs = -fq - fr;
    let rq = round_frac(fq);
    let rr = round_frac(fr);
    let rs = round_frac(fs);
    if round_err(fq) > round_err(fr) && round_err(fq) > round_err(fs) {
        (-rr - rs, rr)
    } else if round_err(fr) > round_err(fs) {
        (rq, -rq - rs)
    } else {
        (rq, rr)
    }
}

/// The hex that contains world point `(x, z)`.
pub open spec fn hex_of_world(x: int, z: int) -> (int, int) {
    cube_round(frac_q(x, z), frac_r(x, z))
}

pub open spec fn within_world_limit(p: WorldPos) -> bool {
    -WORLD_LIMIT <= p.x <= WORLD_LIMIT && -WORLD_LIMIT <= p.z <= WORLD_LIMIT
}

/// Vertex address of corner `i` of a hex, relative to that hex: axial offset,
/// and whether it is a bottom vertex.
pub open spec fn vertex_q_off(i: int) -> int {
    if i == 2 {
        1
    } else if i == 5 {
        -1
    } else {
        0
    }
}

pub open spec fn vertex_r_off(i: int) -> int {
    if i == 0 || i == 3 {
        0
    } else if i == 1 || i == 5 {
        1
    } else {
        -1
    }
}

pub open spec fn vertex_is_bottom(i: int) -> bool {
    i % 2 == 0
}

/// Edge slots of an axial cell.
pub open spec fn NORTH() -> int {
    0
}

pub open spec fn WEST() -> int {
    1
}

pub open spec fn EAST() -> int {
    2
}

/// The slot named by three flags: north wins, then east, and otherwise west.
pub open spec fn slot_of(is_north: bool, is_west: bool, is_east: bool) -> int {
    if is_north {
        NORTH()
    } else if is_east {
        EAST()
    } else {
        WEST()
    }
}

/// Edge address of side `i` of a hex, relative to that hex.
pub open spec fn edge_q_off(i: int) -> int {
    if i == 0 || i == 5 {
        -1
    } else {
        0
    }
}

pub open spec fn edge_r_off(i: int) -> int {
    if i == 0 || i == 1 {
        1
    } else {
        0
    }
}

pub open spec fn edge_slot(i: int) -> int {
    if i == 0 || i == 3 {
        NORTH()
    } else if i == 2 || i == 5 {
        WEST()
    } else {
        EAST()
    }
}

/// Cube coordinates of corner `i`, relative to its hex, times three.
pub open spec fn vertex_cube_dq(i: int) -> int {
    if i == 0 || i == 4 {
        -1
    } else if i == 1 || i == 3 {
        1
    } else if i == 2 {
        2
    } else {
        -2
    }
}

pub open spec fn vertex_cube_dr(i: int) -> int {
    if i == 0 {
        2
    } else if i == 1 || i == 5 {
        1
    } else if i == 3 {
        -2
    } else {
        -1
    }
}

/// Cube coordinates of the midpoint of side `i`, relative to its hex, times two.
pub open spec fn edge_cube_dq(i: int) -> int {
    if i == 0 || i == 5 {
        -1
    } else if i == 2 || i == 3 {
        1
    } else {
        0
    }
}

pub open spec fn edge_cube_dr(i: int) -> int {
    if i == 0 || i == 1 {
        1
    } else if i == 3 || i == 4 {
        -1
    } else {
        0
    }
}

proof fn lemma_round_exact(k: int)
    ensures
        round_frac(FRAC_DENOM * k) == k,
        round_err(FRAC_DENOM * k) == 0,
{
    let d = FRAC_DENOM as int;
    if k >= 0 {
        vstd::arithmetic::div_mod::lemma_div_multiples_vanish(k, d);
        vstd::arithmetic::div_mod::lemma_mod_multiples_basic(k, d);
    } else {
        vstd::arithmetic::div_mod::lemma_div_multiples_vanish(-k, d);
        vstd::arithmetic::div_mod::lemma_mod_multiples_basic(-k, d);
        assert(-(d * k) == d * (-k)) by (nonlinear_arith);
    }
}

/// Round trip: the world position of a hex center rounds back to that hex.
pub proof fn lemma_center_round_trip(q: int, r: int)
    ensures
        hex_of_world(center_x(q, r), center_z(q, r)) == (q, r),
{
    let x = center_x(q, r);
    let z = center_z(q, r);
    assert(frac_q(x, z) == FRAC_DENOM * q) by (nonlinear_arith)
        requires
            x == 6000 * r,
            z == 1000 * (4 * q + 2 * r),
    ;
    assert(frac_r(x, z) == FRAC_DENOM * r);
    assert(-frac_q(x, z) - frac_r(x, z) == FRAC_DENOM * (-q - r)) by (nonlinear_arith)
        requires
            frac_q(x, z) == 12000 * q,
            frac_r(x, z) == 12000 * r,
    ;
    lemma_round_exact(q);
    lemma_round_exact(r);
    lemma_round_exact(-q - r);
}

fn round_frac_exec(n: i64) -> (k: i64)
    requires
        -4 * FRAC_LIMIT <= n <= 4 * FRAC_LIMIT,
    ensures
        k == round_frac(n as int),
        -FRAC_LIMIT <= k <= FRAC_LIMIT,
{
    if n >= 0 {
        let base = n / FRAC_DENOM;
        if 2 * (n % FRAC_DENOM) >= FRAC_DENOM {
            base + 1
        } else {
            base
        }
    } else {
        let m = -n;
        let base = m / FRAC_DENOM;
        if 2 * (m % FRAC_DENOM) >= FRAC_DENOM {
            -(base + 1)
        } else {
            -base
        }
    }
}

fn abs_i64(v: i64) -> (r: i64)
    requires
        v > i64::MIN,
    ensures
        r == abs(v as int),
{
    if v < 0 {
        -v
    } else {
        v
    }
}

impl Board {
    /// Cube rounding of fractional axial coordinates to the nearest hex.
    pub fn hexAxialRound(hex_frac_axial: FracAxial) -> (r: Axial)
        requires
            -FRAC_LIMIT <= hex_frac_axial.q <= FRAC_LIMIT,
            -FRAC_LIMIT <= hex_frac_axial.r <= FRAC_LIMIT,
        ensures
            (r.q as int, r.r as int) == cube_round(hex_frac_axial.q as int, hex_frac_axial.r as int),
    {
        let fq = hex_frac_axial.q;
        let fr = hex_frac_axial.r;
        let fs = -fq - fr;
        let rq = round_frac_exec(fq);
        let rr = round_frac_exec(fr);
        let rs = round_frac_exec(fs);
        let dq = abs_i64(fq - FRAC_DENOM * rq);
        let dr = abs_i64(fr - FRAC_DENOM * rr);
        let ds = abs_i64(fs - FRAC_DENOM * rs);
        let (q, r) = if dq > dr && dq > ds {
            (-rr - rs, rr)
        } else if dr > ds {
            (rq, -rq - rs)
        } else {
            (rq, rr)
        };
        Axial { q: q as i32, r: r as i32 }
    }

    /// Fractional axial coordinates of a world point.
    pub fn worldToAxialFractional(world: WorldPos) -> (r: FracAxial)
        requires
            within_world_limit(world),
        ensures
            r.q == frac_q(world.x as int, world.z as int),
            r.r == frac_r(world.x as int, world.z as int),
            -FRAC_LIMIT <= r.q <= FRAC_LIMIT,
            -FRAC_LIMIT <= r.r <= FRAC_LIMIT,
    {
        FracAxial { q: 3 * world.z - world.x, r: 2 * world.x }
    }

    /// Cube coordinates of hex `(q, r)`.
    pub fn hexToCube(q: i32, r: i32) -> (c: Cube)
        ensures
            c.x == q,
            c.y == -q - r,
            c.z == r,
            c.x + c.y + c.z == 0,
    {
        Cube { x: q as i64, y: -(q as i64) - (r as i64), z: r as i64 }
    }

    /// Cube distance from the origin: half the sum of the absolute components.
    pub fn cubeToDist(cube: Cube) -> (d: i64)
        requires
            -CUBE_LIMIT <= cube.x <= CUBE_LIMIT,
            -CUBE_LIMIT <= cube.y <= CUBE_LIMIT,
            -CUBE_LIMIT <= cube.z <= CUBE_LIMIT,
        ensures
            d == (abs(cube.x as int) + abs(cube.y as int) + abs(cube.z as int)) / 2,
    {
        (abs_i64(cube.x) + abs_i64(cube.y) + abs_i64(cube.z)) / 2
    }

    /// World position of the center of hex `(q, r)`.
    pub fn hexAxialToWorld(q_offset: i32, r_offset: i32) -> (w: WorldPos)
        ensures
            w.x == center_x(q_offset as int, r_offset as int),
            w.z == center_z(q_offset as int, r_offset as int),
    {
        let q = q_offset as i64;
        let r = r_offset as i64;
        WorldPos { x: 6 * QUARTER * r, z: QUARTER * (4 * q + 2 * r) }
    }

    /// World position of corner `i` of the hex centered at `center`.
    pub fn getCorners(center: WorldPos, i: i8) -> (w: WorldPos)
        requires
            0 <= i < 6,
            within_world_limit(center),
        ensures
            w.x == center.x + corner_dx(i as int),
            w.z == center.z + corner_dz(i as int),
    {
        let (dx, dz): (i64, i64) = if i == 0 {
            (4, 0)
        } else if i == 1 {
            (2, 2)
        } else if i == 2 {
            (-2, 2)
        } else if i == 3 {
            (-4, 0)
        } else if i == 4 {
            (-2, -2)
        } else {
            (2, -2)
        };
        WorldPos { x: center.x + QUARTER * dx, z: center.z + QUARTER * dz }
    }

    /// World position of the midpoint of side `i` of the hex centered at `center`.
    pub fn getEdges(center: WorldPos, i: i8) -> (w: WorldPos)
        requires
            0 <= i < 6,
            within_world_limit(center),
        ensures
            w.x == center.x + edge_dx(i as int),
            w.z == center.z + edge_dz(i as int),
    {
        let (dx, dz): (i64, i64) = if i == 0 {
            (3, -1)
        } else if i == 1 {
            (3, 1)
        } else if i == 2 {
            (0, 2)
        } else if i == 3 {
            (-3, 1)
        } else if i == 4 {
            (-3, -1)
        } else {
            (0, -2)
        };
        WorldPos { x: center.x + QUARTER * dx, z: center.z + QUARTER * dz }
    }

    pub fn vertexQOffsetFromI(i: i8) -> (r: i8)
        requires
            0 <= i < 6,
        ensures
            r == vertex_q_off(i as int),
    {
        if i == 0 || i == 1 || i == 3 || i == 4 {
            0
        } else if i == 2 {
            1
        } else {
            -1
        }
    }

    pub fn vertexROffsetFromI(i: i8) -> (r: i8)
        requires
            0 <= i < 6,
        ensures
            r == vertex_r_off(i as int),
    {
        if i == 0 || i == 3 {
            0
        } else if i % 2 == 0 {
            -1
        } else {
            1
        }
    }

    pub fn edgeQOffsetFromI(i: i8) -> (r: i8)
        requires
            0 <= i < 6,
        ensures
            r == edge_q_off(i as int),
    {
        if i == 0 || i == 5 {
            -1
        } else {
            0
        }
    }

    pub fn edgeROffsetFromI(i: i8) -> (r: i8)
        requires
            0 <= i < 6,
        ensures
            r == edge_r_off(i as int),
    {
        if i == 0 || i == 1 {
            1
        } else {
            0
        }
    }

    /// Which corner of a hex is the vertex at the given offset from it.
    pub fn vertexIFromOffset(q_offset: i64, r_offset: i64, isbottom: bool) -> (r: Option<i8>)
        ensures
            match r {
                Some(i) => 0 <= i < 6 && vertex_q_off(i as int) == q_offset && vertex_r_off(i as int)
                    == r_offset && vertex_is_bottom(i as int) == isbottom,
                None => forall|i: int|
                    0 <= i < 6 ==> !(vertex_q_off(i) == q_offset && vertex_r_off(i) == r_offset
                        && vertex_is_bottom(i) == isbottom),
            },
    {
        if q_offset == 0 && r_offset == 0 {
            if isbottom {
                Some(0)
            } else {
                Some(3)
            }
        } else if q_offset == 0 && r_offset == 1 && !isbottom {
            Some(1)
        } else if q_offset == 1 && r_offset == -1 && isbottom {
            Some(2)
        } else if q_offset == 0 && r_offset == -1 && isbottom {
            Some(4)
        } else if q_offset == -1 && r_offset == 1 && !isbottom {
            Some(5)
        } else {
            None
        }
    }

    /// Which side of a hex is the edge at the given offset from it.
    pub fn edgeIFromOffset(
        q_offset: i64,
        r_offset: i64,
        is_north: bool,
        is_west: bool,
        is_east: bool,
    ) -> (r: Option<i8>)
        ensures
            match r {
                Some(i) => 0 <= i < 6 && edge_q_off(i as int) == q_offset && edge_r_off(i as int)
                    == r_offset && edge_slot(i as int) == slot_of(is_north, is_west, is_east),
                None => forall|i: int|
                    0 <= i < 6 ==> !(edge_q_off(i) == q_offset && edge_r_off(i) == r_offset
                        && edge_slot(i) == slot_of(is_north, is_west, is_east)),
            },
    {
        if q_offset == 0 && r_offset == 0 {
            if is_north {
                Some(3)
            } else if is_east {
                Some(4)
            } else {
                Some(2)
            }
        } else if q_offset == -1 && r_offset == 1 && is_north {
            Some(0)
        } else if q_offset == 0 && r_offset == 1 && !is_north && is_east {
            Some(1)
        } else if q_offset == -1 && r_offset == 0 && !is_north && !is_east {
            Some(5)
        } else {
            None
        }
    }

    /// Cube coordinates of corner `i` of hex `(hex_q, hex_r)`, times three, so
    /// that every vertex has integer coordinates.
    pub fn vertexToCube(i: i8, hex_q: i32, hex_r: i32) -> (c: Cube)
        requires
            0 <= i < 6,
        ensures
            c.x == 3 * hex_q + vertex_cube_dq(i as int),
            c.z == 3 * hex_r + vertex_cube_dr(i as int),
            c.x + c.y + c.z == 0,
    {
        let (dq, dr): (i64, i64) = if i == 0 {
            (-1, 2)
        } else if i == 1 {
            (1, 1)
        } else if i == 2 {
            (2, -1)
        } else if i == 3 {
            (1, -2)
        } else if i == 4 {
            (-1, -1)
        } else {
            (-2, 1)
        };
        let x = 3 * (hex_q as i64) + dq;
        let z = 3 * (hex_r as i64) + dr;
        Cube { x, y: -x - z, z }
    }

    /// Cube coordinates of the midpoint of side `i` of hex `(hex_q, hex_r)`,
    /// times two, so that every edge has integer coordinates.
    pub fn edgeToCube(i: i8, hex_q: i32, hex_r: i32) -> (c: Cube)
        requires
            0 <= i < 6,
        ensures
            c.x == 2 * hex_q + edge_cube_dq(i as int),
            c.z == 2 * hex_r + edge_cube_dr(i as int),
            c.x + c.y + c.z == 0,
    {
        let (dq, dr): (i64, i64) = if i == 0 {
            (-1, 1)
        } else if i == 1 {
            (0, 1)
        } else if i == 2 {
            (1, 0)
        } else if i == 3 {
            (1, -1)
        } else if i == 4 {
            (0, -1)
        } else {
            (-1, 0)
        };
        let x = 2 * (hex_q as i64) + dq;
        let z = 2 * (hex_r as i64) + dr;
        Cube { x, y: -x - z, z }
    }
}

} // verus!
