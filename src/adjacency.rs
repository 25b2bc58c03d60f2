use vstd::prelude::*;

use crate::board::{etuple, htuple, mirror, touching_hex_cands, vtuple, Board, EKey, VKey};
use crate::coords::{slot_of, Axial, EAST, NORTH, WEST};

verus! {

/// The entries of `c` that `m` holds, in the order of `c`.
pub open spec fn present<K, V>(m: Map<K, V>, c: Seq<K>) -> Seq<K>
    decreases c.len(),
{
    if c.len() == 0 {
        Seq::empty()
    } else {
        let rest = present(m, c.drop_last());
        if m.contains_key(c.last()) {
            rest.push(c.last())
        } else {
            rest
        }
    }
}

/// The vertices one edge away from vertex `(q, r, b)`.
pub open spec fn vertex_neighbour_cands(q: int, r: int, b: bool) -> Seq<VKey> {
    let m = mirror(b);
    seq![(q + m, r - 2 * m, !b), (q, r - m, !b), (q + m, r - m, !b)]
}

/// The edges that end at vertex `(q, r, b)`.
pub open spec fn protruding_edge_cands(q: int, r: int, b: bool) -> Seq<EKey> {
    if b {
        seq![(q, r + 1, EAST()), (q - 1, r + 1, WEST()), (q - 1, r + 1, NORTH())]
    } else {
        seq![(q, r - 1, WEST()), (q, r, NORTH()), (q, r, EAST())]
    }
}

/// The edges that share an end with edge `(q, r, s)`.
pub open spec fn edge_neighbour_cands(q: int, r: int, s: int) -> Seq<EKey> {
    if s == NORTH() {
        seq![(q + 1, r, EAST()), (q, r, WEST()), (q, r, EAST()), (q, r - 1, WEST())]
    } else if s == WEST() {
        seq![(q, r, NORTH()), (q + 1, r, EAST()), (q, r + 1, NORTH()), (q, r + 1, EAST())]
    } else {
        seq![(q, r, NORTH()), (q, r - 1, WEST()), (q - 1, r, NORTH()), (q - 1, r, WEST())]
    }
}

/// The two ends of edge `(q, r, s)`.
pub open spec fn edge_endpoint_cands(q: int, r: int, s: int) -> Seq<VKey> {
    if s == NORTH() {
        seq![(q, r, false), (q + 1, r - 1, true)]
    } else if s == WEST() {
        seq![(q, r + 1, false), (q + 1, r - 1, true)]
    } else {
        seq![(q, r - 1, true), (q, r, false)]
    }
}

proof fn lemma_present2<K, V>(m: Map<K, V>, a: K, b: K)
    ensures
        present(m, seq![a, b]) == present(m, seq![a, b].drop_last()) + if m.contains_key(b) {
            seq![b]
        } else {
            Seq::empty()
        },
        present(m, seq![a]) == if m.contains_key(a) {
            seq![a]
        } else {
            Seq::<K>::empty()
        },
        seq![a, b].drop_last() == seq![a],
{
    reveal_with_fuel(present, 3);
    assert(seq![a, b].drop_last() =~= seq![a]);
    assert(seq![a].drop_last() =~= Seq::<K>::empty());
    assert(present(m, seq![a, b]) =~= present(m, seq![a, b].drop_last()) + if m.contains_key(b) {
        seq![b]
    } else {
        Seq::empty()
    });
    assert(present(m, seq![a]) =~= if m.contains_key(a) {
        seq![a]
    } else {
        Seq::<K>::empty()
    });
}

proof fn lemma_present3<K, V>(m: Map<K, V>, a: K, b: K, c: K)
    ensures
        present(m, seq![a, b, c]) == present(m, seq![a, b]) + if m.contains_key(c) {
            seq![c]
        } else {
            Seq::empty()
        },
{
    assert(seq![a, b, c].drop_last() =~= seq![a, b]);
    assert(present(m, seq![a, b, c]) =~= present(m, seq![a, b]) + if m.contains_key(c) {
        seq![c]
    } else {
        Seq::empty()
    });
}

proof fn lemma_present4<K, V>(m: Map<K, V>, a: K, b: K, c: K, d: K)
    ensures
        present(m, seq![a, b, c, d]) == present(m, seq![a, b, c]) + if m.contains_key(d) {
            seq![d]
        } else {
            Seq::empty()
        },
{
    assert(seq![a, b, c, d].drop_last() =~= seq![a, b, c]);
    assert(present(m, seq![a, b, c, d]) =~= present(m, seq![a, b, c]) + if m.contains_key(d) {
        seq![d]
    } else {
        Seq::empty()
    });
}

/// Membership in `present(m, c)`: the entries of `c` that `m` holds.
pub proof fn lemma_present_contains<K, V>(m: Map<K, V>, c: Seq<K>, x: K)
    ensures
        present(m, c).contains(x) <==> c.contains(x) && m.contains_key(x),
    decreases c.len(),
{
    if c.len() > 0 {
        let d = c.drop_last();
        lemma_present_contains(m, d, x);
        assert(c =~= d.push(c.last()));
        if c.contains(x) && x != c.last() {
            let i = choose|i: int| 0 <= i < c.len() && c[i] == x;
            assert(d[i] == x);
        }
        if d.contains(x) {
            let i = choose|i: int| 0 <= i < d.len() && d[i] == x;
            assert(c[i] == x);
        }
        let p = present(m, d);
        if m.contains_key(c.last()) {
            assert(p.push(c.last())[p.len() as int] == c.last());
            if p.contains(x) {
                let i = choose|i: int| 0 <= i < p.len() && p[i] == x;
                assert(p.push(c.last())[i] == x);
            }
            if p.push(c.last()).contains(x) && x != c.last() {
                let i = choose|i: int| 0 <= i < p.len() + 1 && p.push(c.last())[i] == x;
                assert(p[i] == x);
            }
        }
    }
}

impl Board {
    fn push_vertex_if_present(&self, out: &mut Vec<(Axial, bool)>, q: i64, r: i64, b: bool)
        requires
            self.wf(),
        ensures
            final(out)@ == old(out)@ + if self.vertex_map().contains_key((q as int, r as int, b)) {
                seq![vtuple((q as int, r as int, b))]
            } else {
                Seq::empty()
            },
    {
        if self.vertex_at(q, r, b).is_some() {
            proof {
                self.lemma_maps_in_grid();
                self.lemma_radius_bound();
            }
            out.push((Axial { q: q as i32, r: r as i32 }, b));
        }
        assert(final(out)@ =~= old(out)@ + if self.vertex_map().contains_key((q as int, r as int, b)) {
            seq![vtuple((q as int, r as int, b))]
        } else {
            Seq::empty()
        });
    }

    fn push_edge_if_present(&self, out: &mut Vec<(Axial, bool, bool, bool)>, q: i64, r: i64, s: u8)
        requires
            self.wf(),
            s < 3,
        ensures
            final(out)@ == old(out)@ + if self.edge_map().contains_key((q as int, r as int, s as int)) {
                seq![etuple((q as int, r as int, s as int))]
            } else {
                Seq::empty()
            },
    {
        if self.edge_at(q, r, s).is_some() {
            proof {
                self.lemma_maps_in_grid();
                self.lemma_radius_bound();
            }
            out.push((Axial { q: q as i32, r: r as i32 }, s == 0, s == 1, s == 2));
        }
        assert(final(out)@ =~= old(out)@ + if self.edge_map().contains_key(
            (q as int, r as int, s as int),
        ) {
            seq![etuple((q as int, r as int, s as int))]
        } else {
            Seq::empty()
        });
    }

    /// The vertices one edge away from vertex `(axial, is_bottom)` that the
    /// lattice holds.
    pub fn getVertexNeighbourAxials(&self, axial: Axial, is_bottom: bool) -> (n: Vec<(Axial, bool)>)
        requires
            self.wf(),
        ensures
            n@ == present(
                self.vertex_map(),
                vertex_neighbour_cands(axial.q as int, axial.r as int, is_bottom),
            ).map_values(|k: VKey| vtuple(k)),
    {
        let m: i64 = if is_bottom {
            -1
        } else {
            1
        };
        let q = axial.q as i64;
        let r = axial.r as i64;
        let mut n: Vec<(Axial, bool)> = Vec::new();
        self.push_vertex_if_present(&mut n, q + m, r - 2 * m, !is_bottom);
        self.push_vertex_if_present(&mut n, q, r - m, !is_bottom);
        self.push_vertex_if_present(&mut n, q + m, r - m, !is_bottom);
        proof {
            let c = vertex_neighbour_cands(q as int, r as int, is_bottom);
            lemma_present2(self.vertex_map(), c[0], c[1]);
            lemma_present3(self.vertex_map(), c[0], c[1], c[2]);
            assert(c =~= seq![c[0], c[1], c[2]]);
            assert(n@ =~= present(self.vertex_map(), c).map_values(|k: VKey| vtuple(k)));
        }
        n
    }

    /// The hexes that touch vertex `(axial, is_bottom)` and that the lattice holds.
    pub fn getVertexTouchingHexAxials(&self, axial: Axial, is_bottom: bool) -> (t: Vec<Axial>)
        requires
            self.wf(),
        ensures
            t@ == present(
                self.hex_map(),
                touching_hex_cands(axial.q as int, axial.r as int, is_bottom),
            ).map_values(|k: (int, int)| htuple(k)),
    {
        let m: i64 = if is_bottom {
            -1
        } else {
            1
        };
        let q = axial.q as i64;
        let r = axial.r as i64;
        let ghost c = touching_hex_cands(q as int, r as int, is_bottom);
        let ghost hm = self.hex_map();
        let mut t: Vec<Axial> = Vec::new();
        let mut j: usize = 0;
        while j < 3
            invariant
                self.wf(),
                j <= 3,
                hm == self.hex_map(),
                c == touching_hex_cands(q as int, r as int, is_bottom),
                m == mirror(is_bottom),
                -0x8000_0000 <= q < 0x8000_0000,
                -0x8000_0000 <= r < 0x8000_0000,
                t@ == present(hm, c.take(j as int)).map_values(|k: (int, int)| htuple(k)),
            decreases 3 - j,
        {
            let (hq, hr): (i64, i64) = if j == 0 {
                (q + m, r - m)
            } else if j == 1 {
                (q, r)
            } else {
                (q, r - m)
            };
            assert(c.take(j + 1).drop_last() =~= c.take(j as int));
            assert((hq as int, hr as int) == c[j as int]);
            if self.hex_at(hq, hr).is_some() {
                proof {
                    self.lemma_maps_in_grid();
                    self.lemma_radius_bound();
                }
                t.push(Axial { q: hq as i32, r: hr as i32 });
            }
            assert(t@ =~= present(hm, c.take(j + 1)).map_values(|k: (int, int)| htuple(k)));
            j += 1;
        }
        assert(c.take(3) =~= c);
        t
    }

    /// The edges that end at vertex `(axial, is_bottom)` and that the lattice holds.
    pub fn getVertexProtrudingEdgeAxials(&self, axial: Axial, is_bottom: bool) -> (e: Vec<
        (Axial, bool, bool, bool),
    >)
        requires
            self.wf(),
        ensures
            e@ == present(
                self.edge_map(),
                protruding_edge_cands(axial.q as int, axial.r as int, is_bottom),
            ).map_values(|k: EKey| etuple(k)),
    {
        let q = axial.q as i64;
        let r = axial.r as i64;
        let mut e: Vec<(Axial, bool, bool, bool)> = Vec::new();
        if is_bottom {
            self.push_edge_if_present(&mut e, q, r + 1, 2);
            self.push_edge_if_present(&mut e, q - 1, r + 1, 1);
            self.push_edge_if_present(&mut e, q - 1, r + 1, 0);
        } else {
            self.push_edge_if_present(&mut e, q, r - 1, 1);
            self.push_edge_if_present(&mut e, q, r, 0);
            self.push_edge_if_present(&mut e, q, r, 2);
        }
        proof {
            let c = protruding_edge_cands(q as int, r as int, is_bottom);
            lemma_present2(self.edge_map(), c[0], c[1]);
            lemma_present3(self.edge_map(), c[0], c[1], c[2]);
            assert(c =~= seq![c[0], c[1], c[2]]);
            assert(e@ =~= present(self.edge_map(), c).map_values(|k: EKey| etuple(k)));
        }
        e
    }

    /// The edges that share an end with edge `axial` in the slot the flags
    /// name, and that the lattice holds.
    pub fn getEdgeNeighbouringEdgeAxials(
        &self,
        axial: Axial,
        is_north: bool,
        is_west: bool,
        is_east: bool,
    ) -> (e: Vec<(Axial, bool, bool, bool)>)
        requires
            self.wf(),
        ensures
            e@ == present(
                self.edge_map(),
                edge_neighbour_cands(axial.q as int, axial.r as int, slot_of(is_north, is_west, is_east)),
            ).map_values(|k: EKey| etuple(k)),
    {
        let q = axial.q as i64;
        let r = axial.r as i64;
        let mut e: Vec<(Axial, bool, bool, bool)> = Vec::new();
        if is_north {
            self.push_edge_if_present(&mut e, q + 1, r, 2);
            self.push_edge_if_present(&mut e, q, r, 1);
            self.push_edge_if_present(&mut e, q, r, 2);
            self.push_edge_if_present(&mut e, q, r - 1, 1);
        } else if is_east {
            self.push_edge_if_present(&mut e, q, r, 0);
            self.push_edge_if_present(&mut e, q, r - 1, 1);
            self.push_edge_if_present(&mut e, q - 1, r, 0);
            self.push_edge_if_present(&mut e, q - 1, r, 1);
        } else {
            self.push_edge_if_present(&mut e, q, r, 0);
            self.push_edge_if_present(&mut e, q + 1, r, 2);
            self.push_edge_if_present(&mut e, q, r + 1, 0);
            self.push_edge_if_present(&mut e, q, r + 1, 2);
        }
        proof {
            let c = edge_neighbour_cands(q as int, r as int, slot_of(is_north, is_west, is_east));
            lemma_present2(self.edge_map(), c[0], c[1]);
            lemma_present3(self.edge_map(), c[0], c[1], c[2]);
            lemma_present4(self.edge_map(), c[0], c[1], c[2], c[3]);
            assert(c =~= seq![c[0], c[1], c[2], c[3]]);
            assert(e@ =~= present(self.edge_map(), c).map_values(|k: EKey| etuple(k)));
        }
        e
    }

    /// The ends of edge `axial` in the slot the flags name that the lattice holds.
    pub fn getEdgeEndPointAxials(&self, axial: Axial, is_north: bool, is_west: bool, is_east: bool) -> (v:
        Vec<(Axial, bool)>)
        requires
            self.wf(),
        ensures
            v@ == present(
                self.vertex_map(),
                edge_endpoint_cands(axial.q as int, axial.r as int, slot_of(is_north, is_west, is_east)),
            ).map_values(|k: VKey| vtuple(k)),
    {
        let q = axial.q as i64;
        let r = axial.r as i64;
        let mut v: Vec<(Axial, bool)> = Vec::new();
        if is_north {
            self.push_vertex_if_present(&mut v, q, r, false);
            self.push_vertex_if_present(&mut v, q + 1, r - 1, true);
        } else if is_east {
            self.push_vertex_if_present(&mut v, q, r - 1, true);
            self.push_vertex_if_present(&mut v, q, r, false);
        } else {
            self.push_vertex_if_present(&mut v, q, r + 1, false);
            self.push_vertex_if_present(&mut v, q + 1, r - 1, true);
        }
        proof {
            let c = edge_endpoint_cands(q as int, r as int, slot_of(is_north, is_west, is_east));
            lemma_present2(self.vertex_map(), c[0], c[1]);
            assert(c =~= seq![c[0], c[1]]);
            assert(v@ =~= present(self.vertex_map(), c).map_values(|k: VKey| vtuple(k)));
        }
        v
    }
}

} // verus!
