use vstd::prelude::*;

use crate::board::{on_board, vertex_on_board, Board, VKey};
use crate::coords::abs;

verus! {

// The vertices of a board are counted row by row: in row `n` (the vertices
// with `q == n`) the top vertices form one interval of `r` values, and the
// bottom vertices another.

/// Lowest `r` of a top vertex in row `n` of a board of radius `radius`.
pub open spec fn top_lo(radius: int, n: int) -> int {
    if n < 0 {
        -radius - n
    } else {
        -radius
    }
}

/// Highest `r` of a top vertex in row `n`.
pub open spec fn top_hi(radius: int, n: int) -> int {
    if n < 0 {
        radius + 1
    } else {
        radius - n + 1
    }
}

pub open spec fn top_row_ok(radius: int, n: int) -> bool {
    -radius - 1 <= n <= radius
}

/// Number of vertices in row `n`.
pub open spec fn row_count(radius: int, n: int) -> int {
    (if top_row_ok(radius, n) {
        top_hi(radius, n) - top_lo(radius, n) + 1
    } else {
        0
    }) + (if top_row_ok(radius, -n) {
        top_hi(radius, -n) - top_lo(radius, -n) + 1
    } else {
        0
    })
}

/// The vertices of row `n` with `is_bottom == b` and `lo <= r <= hi`.
pub open spec fn line(n: int, b: bool, lo: int, hi: int) -> Set<VKey> {
    Set::new(|k: VKey| k.0 == n && k.2 == b && lo <= k.1 <= hi)
}

/// The vertices of a board of radius `radius` in rows before `n`.
pub open spec fn rows_before(radius: int, n: int) -> Set<VKey> {
    Set::new(|k: VKey| k.0 < n && vertex_on_board(radius, k))
}

pub open spec fn row(radius: int, n: int) -> Set<VKey> {
    Set::new(|k: VKey| k.0 == n && vertex_on_board(radius, k))
}

proof fn lemma_on_board_max(radius: int, q: int, r: int)
    ensures
        on_board(radius, q, r) <==> abs(q) <= radius && abs(r) <= radius && abs(q + r) <= radius,
{
}

proof fn lemma_top_row(radius: int, n: int, b: int)
    requires
        radius >= 0,
    ensures
        vertex_on_board(radius, (n, b, false)) <==> top_row_ok(radius, n) && top_lo(radius, n)
            <= b <= top_hi(radius, n),
{
    lemma_on_board_max(radius, n + 1, b - 1);
    lemma_on_board_max(radius, n, b);
    lemma_on_board_max(radius, n, b - 1);
}

proof fn lemma_bottom_mirrors_top(radius: int, n: int, b: int)
    ensures
        vertex_on_board(radius, (n, b, true)) == vertex_on_board(radius, (-n, -b, false)),
{
    lemma_on_board_max(radius, n - 1, b + 1);
    lemma_on_board_max(radius, n, b);
    lemma_on_board_max(radius, n, b + 1);
    lemma_on_board_max(radius, -n + 1, -b - 1);
    lemma_on_board_max(radius, -n, -b);
    lemma_on_board_max(radius, -n, -b - 1);
}

proof fn lemma_line_len(n: int, b: bool, lo: int, hi: int)
    ensures
        line(n, b, lo, hi).finite(),
        line(n, b, lo, hi).len() == if hi < lo {
            0
        } else {
            hi - lo + 1
        },
    decreases hi - lo + 1,
{
    if hi < lo {
        assert(line(n, b, lo, hi) =~= Set::empty());
    } else {
        lemma_line_len(n, b, lo, hi - 1);
        assert(line(n, b, lo, hi) =~= line(n, b, lo, hi - 1).insert((n, hi, b)));
    }
}

proof fn lemma_row_len(radius: int, n: int)
    requires
        radius >= 0,
    ensures
        row(radius, n).finite(),
        row(radius, n).len() == row_count(radius, n),
{
    let tops = line(n, false, top_lo(radius, n), if top_row_ok(radius, n) {
        top_hi(radius, n)
    } else {
        top_lo(radius, n) - 1
    });
    let bottoms = line(n, true, -top_hi(radius, -n), if top_row_ok(radius, -n) {
        -top_lo(radius, -n)
    } else {
        -top_hi(radius, -n) - 1
    });
    lemma_line_len(n, false, top_lo(radius, n), if top_row_ok(radius, n) {
        top_hi(radius, n)
    } else {
        top_lo(radius, n) - 1
    });
    lemma_line_len(n, true, -top_hi(radius, -n), if top_row_ok(radius, -n) {
        -top_lo(radius, -n)
    } else {
        -top_hi(radius, -n) - 1
    });
    assert forall|k: VKey| row(radius, n).contains(k) <==> (tops + bottoms).contains(k) by {
        if k.0 == n {
            if k.2 {
                lemma_bottom_mirrors_top(radius, n, k.1);
                lemma_top_row(radius, -n, -k.1);
            } else {
                lemma_top_row(radius, n, k.1);
            }
        }
    }
    assert(row(radius, n) =~= tops + bottoms);
    assert(tops.disjoint(bottoms));
    vstd::set_lib::lemma_set_disjoint_lens(tops, bottoms);
}

/// Vertices lie in rows `-radius - 1` to `radius + 1`.
proof fn lemma_vertex_rows(radius: int, k: VKey)
    requires
        radius >= 0,
        vertex_on_board(radius, k),
    ensures
        -radius - 1 <= k.0 <= radius + 1,
{
    if k.2 {
        lemma_bottom_mirrors_top(radius, k.0, k.1);
        lemma_top_row(radius, -k.0, -k.1);
    } else {
        lemma_top_row(radius, k.0, k.1);
    }
}

/// The number of vertices in the rows before `n`, in closed form.
pub open spec fn rows_before_count(radius: int, n: int) -> int {
    if n <= -radius - 1 {
        0
    } else if n <= 1 {
        radius + 1 + (n + radius) * (2 * radius + 4) + (n + radius) * (n + radius - 1)
    } else if n <= radius + 1 {
        (radius + 1) * (3 * radius + 5) + 2 * (n - 1) * (2 * radius + 2) - (n - 1) * n
    } else {
        6 * (radius + 1) * (radius + 1)
    }
}

proof fn lemma_rows_before_len(radius: int, n: int)
    requires
        radius >= 0,
        -radius - 1 <= n <= radius + 2,
    ensures
        rows_before(radius, n).finite(),
        rows_before(radius, n).len() == rows_before_count(radius, n),
    decreases n + radius + 1,
{
    if n == -radius - 1 {
        assert forall|k: VKey| !rows_before(radius, n).contains(k) by {
            if k.0 < n && vertex_on_board(radius, k) {
                lemma_vertex_rows(radius, k);
            }
        }
        assert(rows_before(radius, n) =~= Set::empty());
    } else {
        let m = n - 1;
        lemma_rows_before_len(radius, m);
        lemma_row_len(radius, m);
        assert(rows_before(radius, n) =~= rows_before(radius, m) + row(radius, m));
        assert(rows_before(radius, m).disjoint(row(radius, m)));
        vstd::set_lib::lemma_set_disjoint_lens(rows_before(radius, m), row(radius, m));
        let p = rows_before_count(radius, m);
        let c = row_count(radius, m);
        if m == -radius - 1 {
            assert(c == radius + 1);
            assert(p + c == rows_before_count(radius, n));
        } else if m <= 0 {
            assert(c == 2 * (2 * radius + 2 + m));
            assert(p + c == rows_before_count(radius, n)) by (nonlinear_arith)
                requires
                    -radius <= m <= 0,
                    n == m + 1,
                    p == radius + 1 + (m + radius) * (2 * radius + 4) + (m + radius) * (m + radius
                        - 1),
                    c == 2 * (2 * radius + 2 + m),
                    rows_before_count(radius, n) == radius + 1 + (n + radius) * (2 * radius + 4) + (n
                        + radius) * (n + radius - 1),
            ;
        } else {
            if m == 1 {
                assert(p == (radius + 1) * (3 * radius + 5)) by (nonlinear_arith)
                    requires
                        p == radius + 1 + (1 + radius) * (2 * radius + 4) + (1 + radius) * radius,
                ;
            }
            assert(p == (radius + 1) * (3 * radius + 5) + 2 * (m - 1) * (2 * radius + 2) - (m - 1)
                * m);
            if m <= radius {
                assert(c == 2 * (2 * radius + 2 - m));
                assert(p + c == rows_before_count(radius, n)) by (nonlinear_arith)
                    requires
                        1 <= m <= radius,
                        n == m + 1,
                        p == (radius + 1) * (3 * radius + 5) + 2 * (m - 1) * (2 * radius + 2) - (m
                            - 1) * m,
                        c == 2 * (2 * radius + 2 - m),
                        rows_before_count(radius, n) == (radius + 1) * (3 * radius + 5) + 2 * (n
                            - 1) * (2 * radius + 2) - (n - 1) * n,
                ;
            } else {
                assert(c == radius + 1);
                assert(p + c == rows_before_count(radius, n)) by (nonlinear_arith)
                    requires
                        m == radius + 1,
                        n == radius + 2,
                        p == (radius + 1) * (3 * radius + 5) + 2 * (m - 1) * (2 * radius + 2) - (m
                            - 1) * m,
                        c == radius + 1,
                        rows_before_count(radius, n) == 6 * (radius + 1) * (radius + 1),
                ;
            }
        }
    }
}

/// Vertex count: a built board of radius `R` has exactly `6 * (R + 1)^2`
/// vertices, one per distinct corner address of its hexes.
pub proof fn lemma_vertex_count(b: Board)
    requires
        b.wf(),
        b.lattice_ok(),
    ensures
        b.vertex_map().dom().finite(),
        b.vertex_map().dom().len() == 6 * (b.spec_radius() + 1) * (b.spec_radius() + 1),
{
    let radius = b.spec_radius();
    b.lemma_radius_bound();
    lemma_rows_before_len(radius, radius + 2);
    assert forall|k: VKey| b.vertex_map().dom().contains(k) <==> rows_before(radius, radius + 2).contains(
        k,
    ) by {
        if vertex_on_board(radius, k) {
            lemma_vertex_rows(radius, k);
        }
    }
    assert(b.vertex_map().dom() =~= rows_before(radius, radius + 2));
}

} // verus!
