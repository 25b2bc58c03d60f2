use vstd::prelude::*;

use crate::adjacency::{lemma_present_contains, present, vertex_neighbour_cands};
use crate::board::{grid_contains, vkey_of, vtuple, Board, VKey, Vertex, MAX_RADIUS};
use crate::common::{SettlementData, SettlementTier};
use crate::coords::Axial;

verus! {

/// Vertex `v` with a basic settlement of player `p` on it.
pub open spec fn settled(v: Vertex, p: i8) -> Vertex {
    Vertex {
        settlement_data: Some(SettlementData { player_id: p, tier: SettlementTier::Basic }),
        ..v
    }
}

/// Vertex `u` is one edge away from vertex `v`.
pub open spec fn adjacent(u: VKey, v: VKey) -> bool {
    vertex_neighbour_cands(u.0, u.1, u.2).contains(v)
}

/// The distance rule: a settlement may go on an existing, free vertex whose
/// existing neighbours are all free.
pub open spec fn placement_legal(m: Map<VKey, Vertex>, k: VKey) -> bool {
    &&& m.contains_key(k)
    &&& m[k].settlement_data.is_none()
    &&& forall|n: VKey|
        #![trigger adjacent(k, n)]
        adjacent(k, n) && m.contains_key(n) ==> m[n].settlement_data.is_none()
}

/// The vertices after player `p` settles on vertex `k`.
pub open spec fn after_placement(m: Map<VKey, Vertex>, k: VKey, p: i8) -> Map<VKey, Vertex> {
    m.insert(k, settled(m[k], p))
}

/// Adjacency of vertices is symmetric.
pub proof fn lemma_adjacent_symmetric(u: VKey, v: VKey)
    requires
        adjacent(u, v),
    ensures
        adjacent(v, u),
{
    let cu = vertex_neighbour_cands(u.0, u.1, u.2);
    let cv = vertex_neighbour_cands(v.0, v.1, v.2);
    let j = choose|j: int| 0 <= j < cu.len() && cu[j] == v;
    assert(cv[j] == u);
}

/// Two settlements never stand on adjacent vertices: once a settlement is
/// placed on `u`, placing one on a neighbour `v` of `u` is refused.
pub proof fn lemma_adjacent_placement_refused(b: Board, u: VKey, v: VKey, p: i8)
    requires
        b.wf(),
        placement_legal(b.vertex_map(), u),
        adjacent(u, v),
    ensures
        !placement_legal(after_placement(b.vertex_map(), u, p), v),
{
    let m2 = after_placement(b.vertex_map(), u, p);
    lemma_adjacent_symmetric(u, v);
    assert(m2.contains_key(u) && m2[u].settlement_data.is_some());
}

/// On a board without settlements, two distinct vertices that are not
/// adjacent can both be settled, one after the other.
pub proof fn lemma_distant_placements_accepted(b: Board, u: VKey, v: VKey, player: i8)
    requires
        b.wf(),
        forall|k: VKey| #[trigger]
            b.vertex_map().contains_key(k) ==> b.vertex_map()[k].settlement_data.is_none(),
        b.vertex_map().contains_key(u),
        b.vertex_map().contains_key(v),
        u != v,
        !adjacent(u, v),
    ensures
        placement_legal(b.vertex_map(), u),
        placement_legal(after_placement(b.vertex_map(), u, player), v),
{
    let m2 = after_placement(b.vertex_map(), u, player);
    assert forall|n: VKey| adjacent(v, n) && m2.contains_key(n) implies m2[n].settlement_data.is_none() by {
        if n == u {
            lemma_adjacent_symmetric(v, u);
        }
    }
}

impl Board {
    /// Places a basic settlement of `player_id` on vertex `(axial, is_bottom)`
    /// when the distance rule allows it; returns whether it did.
    pub fn tryPlaceSettlement(&mut self, axial: Axial, is_bottom: bool, player_id: i8) -> (placed:
        bool)
        requires
            old(self).wf(),
        ensures
            final(self).wf(),
            final(self).spec_radius() == old(self).spec_radius(),
            final(self).hex_map() == old(self).hex_map(),
            final(self).edge_map() == old(self).edge_map(),
            final(self).port_list() == old(self).port_list(),
            final(self).port_sites() == old(self).port_sites(),
            placed == placement_legal(old(self).vertex_map(), vkey_of(axial, is_bottom)),
            placed ==> final(self).vertex_map() == after_placement(
                old(self).vertex_map(),
                vkey_of(axial, is_bottom),
                player_id,
            ),
            !placed ==> final(self).vertex_map() == old(self).vertex_map(),
            old(self).lattice_ok() ==> final(self).lattice_ok(),
    {
        let ghost m = self.vertex_map();
        let ghost k = vkey_of(axial, is_bottom);
        let target = match self.getVertexFromAxial(axial, is_bottom) {
            Some(v) => v,
            None => {
                return false;
            },
        };
        if target.settlement_data.is_some() {
            return false;
        }
        let neighbours = self.getVertexNeighbourAxials(axial, is_bottom);
        let ghost c = vertex_neighbour_cands(k.0, k.1, k.2);
        let ghost pr = present(m, c);
        proof {
            self.lemma_maps_in_grid();
            self.lemma_radius_bound();
        }
        let mut i: usize = 0;
        while i < neighbours.len()
            invariant
                self.wf(),
                m == self.vertex_map(),
                k == vkey_of(axial, is_bottom),
                c == vertex_neighbour_cands(k.0, k.1, k.2),
                pr == present(m, c),
                0 <= self.spec_radius() <= MAX_RADIUS,
                forall|n: VKey| #[trigger]
                    m.contains_key(n) ==> grid_contains(self.spec_radius(), n.0, n.1),
                neighbours@ == pr.map_values(|n: VKey| vtuple(n)),
                i <= neighbours@.len(),
                forall|t: int| 0 <= t < i ==> m[#[trigger] pr[t]].settlement_data.is_none(),
            decreases neighbours.len() - i,
        {
            let (na, nb) = neighbours[i];
            proof {
                lemma_present_contains(m, c, pr[i as int]);
                assert(pr.contains(pr[i as int]));
                assert(m.contains_key(pr[i as int]));
                assert(grid_contains(self.spec_radius(), pr[i as int].0, pr[i as int].1));
                assert(neighbours@[i as int] == vtuple(pr[i as int]));
                assert(vkey_of(na, nb) == pr[i as int]);
                assert(adjacent(k, pr[i as int]));
            }
            match self.getVertexFromAxial(na, nb) {
                Some(n) => {
                    if n.settlement_data.is_some() {
                        return false;
                    }
                },
                None => {},
            }
            i += 1;
        }
        proof {
            assert forall|n: VKey| adjacent(k, n) && m.contains_key(n) implies m[n].settlement_data.is_none() by {
                lemma_present_contains(m, c, n);
                let t = choose|t: int| 0 <= t < pr.len() && pr[t] == n;
                assert(m[pr[t]].settlement_data.is_none());
            }
        }
        let settled_vertex = Vertex {
            settlement_data: Some(SettlementData { player_id, tier: SettlementTier::Basic }),
            ..target
        };
        self.set_vertex(axial.q as i64, axial.r as i64, is_bottom, settled_vertex);
        proof {
            assert(self.vertex_map().dom() =~= m.dom());
        }
        true
    }
}

} // verus!
