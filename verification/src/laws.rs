use vstd::prelude::*;
use crate::edit::Edit;
use crate::error::{SMeshError, SMeshResult};
use crate::graph::{Graph, Turn};
use crate::face_plan::{fresh_sides, next_index, FacePlan};
use crate::mesh_elements::{FaceId, HalfedgeId, Vertex, VertexId};
use crate::round_trip::{lemma_delete_lone_face, polygon_gone, removal_ground};
use crate::face_ring::lemma_new_face_ring;
use crate::polygon::{
    lemma_build_lone_polygon, lemma_polygon_rings, lone_polygon, no_sides, polygon_built,
    prev_index,
};

verus! {

/// The graph `after` is `g` with a face `f` over the lone polygon `vs` under
/// the fresh halfedge pairs `keys`.
pub open spec fn polygon_made(
    g: Graph,
    after: Graph,
    vs: Seq<VertexId>,
    keys: Seq<(HalfedgeId, HalfedgeId)>,
    f: FaceId,
) -> bool {
    &&& fresh_sides(g, no_sides(vs.len()), keys)
    &&& !g.faces.contains_key(f)
    &&& polygon_built(g, after, vs, keys, f)
}

impl Graph {
    /// The search for a boundary halfedge reads nothing but the halfedges:
    /// on two graphs with the same halfedges it gives the same.
    pub proof fn lemma_find_boundary_reads_halfedges(
        self,
        other: Graph,
        start: HalfedgeId,
        cur: HalfedgeId,
        fuel: nat,
    )
        requires
            self.halfedges == other.halfedges,
        ensures
            self.find_boundary(start, cur, fuel) == other.find_boundary(start, cur, fuel),
        decreases fuel,
    {
        if fuel > 0 && !self.he_is_boundary(cur) {
            match self.cw(cur) {
                Ok(nx) => {
                    if nx != start {
                        self.lemma_find_boundary_reads_halfedges(other, start, nx, (fuel - 1) as nat);
                    }
                },
                Err(_) => {},
            }
        }
    }

    /// What the search for a boundary halfedge finds is a boundary halfedge.
    pub proof fn lemma_find_boundary_is_boundary(self, start: HalfedgeId, cur: HalfedgeId, fuel: nat)
        ensures
            match self.find_boundary(start, cur, fuel) {
                Ok(Some(h)) => self.he_is_boundary(h),
                _ => true,
            },
        decreases fuel,
    {
        if fuel > 0 && !self.he_is_boundary(cur) {
            match self.cw(cur) {
                Ok(nx) => {
                    if nx != start {
                        self.lemma_find_boundary_is_boundary(start, nx, (fuel - 1) as nat);
                    }
                },
                Err(_) => {},
            }
        }
    }

    /// Adjusting the outgoing halfedge of a vertex twice in a row is the
    /// same as adjusting it once: the second adjustment leaves the graph as
    /// the first has left it, stored halfedge included, and ends as the
    /// first has ended.
    pub proof fn law_adjust_is_idempotent(self, v: VertexId)
        ensures
            Edit::of(Edit::of(self).adjust_outgoing_halfedge(v).g).adjust_outgoing_halfedge(v)
                == Edit::of(self).adjust_outgoing_halfedge(v),
    {
        let first = Edit::of(self).adjust_outgoing_halfedge(v);
        match self.vertex_halfedge(v) {
            Err(_) => {},
            Ok(h0) => {
                self.lemma_find_boundary_is_boundary(h0, h0, self.n_halfedges);
                match self.find_boundary(h0, h0, self.n_halfedges) {
                    Ok(Some(h)) => {
                        let g1 = first.g;
                        assert(g1.halfedges == self.halfedges);
                        assert(g1.vertex_halfedge(v) == Ok::<HalfedgeId, SMeshError>(h));
                        assert(g1.he_is_boundary(h));
                        if g1.n_halfedges > 0 {
                            assert(g1.find_boundary(h, h, g1.n_halfedges) == Ok::<
                                Option<HalfedgeId>,
                                SMeshError,
                            >(Some(h)));
                            assert(g1.with_vertex(v, crate::mesh_elements::Vertex { halfedge: Some(h) })
                                =~= g1) by {
                                assert(g1.vertices.insert(
                                    v,
                                    crate::mesh_elements::Vertex { halfedge: Some(h) },
                                ) =~= g1.vertices);
                            }
                        } else {
                            assert(self.find_boundary(h0, h0, 0) == Ok::<
                                Option<HalfedgeId>,
                                SMeshError,
                            >(None));
                        }
                    },
                    _ => {},
                }
            },
        }
    }

    /// Every reference of the halfedge `h`, if it is live, leads to a live
    /// halfedge that refers back: the opposite of its opposite, the previous
    /// of its next and the next of its previous are the halfedge itself.
    pub open spec fn sound_at(self, h: HalfedgeId) -> bool {
        self.halfedges.contains_key(h) ==> {
            &&& (match self.halfedges[h].opposite {
                Some(o) => self.halfedges.contains_key(o) && self.halfedges[o].opposite == Some(h),
                None => true,
            })
            &&& (match self.halfedges[h].next {
                Some(n) => self.halfedges.contains_key(n) && self.halfedges[n].prev == Some(h),
                None => true,
            })
            &&& (match self.halfedges[h].prev {
                Some(p) => self.halfedges.contains_key(p) && self.halfedges[p].next == Some(h),
                None => true,
            })
        }
    }

    /// The links of every halfedge are sound.
    pub open spec fn links_sound(self) -> bool {
        forall|h: HalfedgeId| #[trigger] self.sound_at(h)
    }

    /// The halfedge `h`, if it is live, has an opposite, a next and a
    /// previous halfedge.
    pub open spec fn whole_at(self, h: HalfedgeId) -> bool {
        self.halfedges.contains_key(h) ==> self.halfedges[h].opposite is Some
            && self.halfedges[h].next is Some && self.halfedges[h].prev is Some
    }

    /// Every live halfedge has an opposite, a next and a previous halfedge.
    pub open spec fn links_whole(self) -> bool {
        forall|h: HalfedgeId| #[trigger] self.whole_at(h)
    }

    /// The halfedge that `k` clockwise steps from `h` lead to.
    pub open spec fn cw_steps(self, h: HalfedgeId, k: nat) -> SMeshResult<HalfedgeId>
        decreases k,
    {
        if k == 0 {
            Ok(h)
        } else {
            match self.cw(h) {
                Err(e) => Err(e),
                Ok(n) => self.cw_steps(n, (k - 1) as nat),
            }
        }
    }

    /// In a graph with sound links a clockwise step undoes a counter-
    /// clockwise one.
    pub proof fn lemma_cw_undoes_ccw(self, h: HalfedgeId)
        requires
            self.links_sound(),
        ensures
            match self.ccw(h) {
                Ok(y) => self.halfedges.contains_key(y) && self.cw(y) == Ok::<
                    HalfedgeId,
                    SMeshError,
                >(h),
                Err(_) => true,
            },
    {
        match self.ccw(h) {
            Ok(y) => {
                assert(self.halfedges.contains_key(h));
                assert(self.sound_at(h));
                let p = self.halfedges[h].prev->Some_0;
                assert(self.halfedges.contains_key(p));
                assert(self.sound_at(p));
            },
            Err(_) => {},
        }
    }

    /// The shape of a counter-clockwise walk: it starts at `cur`, each of
    /// its halfedges is a counter-clockwise step after the one before, and
    /// none but the first can be `start`.
    pub proof fn lemma_orbit_shape(self, start: HalfedgeId, cur: HalfedgeId, fuel: nat)
        requires
            fuel > 0,
        ensures
            self.orbit_from(Turn::Ccw, start, cur, fuel).len() >= 1,
            self.orbit_from(Turn::Ccw, start, cur, fuel).len() <= fuel,
            self.orbit_from(Turn::Ccw, start, cur, fuel)[0] == cur,
            forall|j: int|
                0 <= j < self.orbit_from(Turn::Ccw, start, cur, fuel).len() - 1 ==> self.ccw(
                    #[trigger] self.orbit_from(Turn::Ccw, start, cur, fuel)[j],
                ) == Ok::<HalfedgeId, SMeshError>(
                    self.orbit_from(Turn::Ccw, start, cur, fuel)[j + 1],
                ),
            forall|j: int|
                1 <= j < self.orbit_from(Turn::Ccw, start, cur, fuel).len() ==> #[trigger] self.orbit_from(
                    Turn::Ccw,
                    start,
                    cur,
                    fuel,
                )[j] != start,
        decreases fuel,
    {
        let s = self.orbit_from(Turn::Ccw, start, cur, fuel);
        match self.ccw(cur) {
            Ok(nx) => {
                if nx != start && fuel > 1 {
                    self.lemma_orbit_shape(start, nx, (fuel - 1) as nat);
                    let rest = self.orbit_from(Turn::Ccw, start, nx, (fuel - 1) as nat);
                    assert(s == seq![cur] + rest);
                    assert forall|j: int| 0 <= j < s.len() - 1 implies self.ccw(#[trigger] s[j]) == Ok::<
                        HalfedgeId,
                        SMeshError,
                    >(s[j + 1]) by {
                        if j > 0 {
                            assert(s[j] == rest[j - 1]);
                            assert(s[j + 1] == rest[j]);
                        } else {
                            assert(s[1] == rest[0]);
                        }
                    }
                    assert forall|j: int| 1 <= j < s.len() implies #[trigger] s[j] != start by {
                        assert(s[j] == rest[j - 1]);
                        if j > 1 {
                        }
                    }
                } else if nx != start {
                    assert(self.orbit_from(Turn::Ccw, start, nx, 0) =~= Seq::empty());
                    assert(s =~= seq![cur]);
                }
            },
            Err(_) => {},
        }
    }

    /// Clockwise steps run back along a counter-clockwise walk.
    proof fn lemma_cw_runs_back(self, ring: Seq<HalfedgeId>, h: HalfedgeId, k: nat)
        requires
            self.links_sound(),
            ring.len() >= 1,
            ring[0] == h,
            forall|j: int|
                0 <= j < ring.len() - 1 ==> self.ccw(#[trigger] ring[j]) == Ok::<
                    HalfedgeId,
                    SMeshError,
                >(ring[j + 1]),
            self.ccw(ring[ring.len() - 1]) == Ok::<HalfedgeId, SMeshError>(h),
            1 <= k <= ring.len(),
        ensures
            self.cw_steps(h, k) == Ok::<HalfedgeId, SMeshError>(ring[ring.len() - k]),
        decreases k,
    {
        let n = ring.len() as int;
        if k == 1 {
            self.lemma_cw_undoes_ccw(ring[n - 1]);
            assert(self.cw(h) == Ok::<HalfedgeId, SMeshError>(ring[n - 1]));
            assert(self.cw_steps(ring[n - 1], 0) == Ok::<HalfedgeId, SMeshError>(ring[n - 1]));
        } else {
            self.lemma_cw_runs_back(ring, h, (k - 1) as nat);
            self.lemma_cw_undoes_ccw(ring[n - k]);
            assert(self.ccw(ring[n - k]) == Ok::<HalfedgeId, SMeshError>(ring[n - k + 1]));
            assert(self.cw(ring[n - k + 1]) == Ok::<HalfedgeId, SMeshError>(ring[n - k]));
            self.lemma_cw_steps_extend(h, (k - 1) as nat);
        }
    }

    /// One more clockwise step at the end of a walk.
    proof fn lemma_cw_steps_extend(self, h: HalfedgeId, k: nat)
        ensures
            self.cw_steps(h, k + 1) == (match self.cw_steps(h, k) {
                Ok(x) => self.cw(x),
                Err(e) => Err(e),
            }),
        decreases k,
    {
        if k > 0 {
            match self.cw(h) {
                Ok(n) => {
                    self.lemma_cw_steps_extend(n, (k - 1) as nat);
                },
                Err(_) => {},
            }
        } else {
            match self.cw(h) {
                Ok(n) => {
                    assert(self.cw_steps(n, 0) == Ok::<HalfedgeId, SMeshError>(n));
                },
                Err(_) => {},
            }
        }
    }

    /// Every halfedge of a counter-clockwise walk from a live halfedge is
    /// live where the links are sound, so the walk has as many targets as
    /// halfedges.
    proof fn lemma_live_ring_targets(self, ring: Seq<HalfedgeId>)
        requires
            forall|j: int| 0 <= j < ring.len() ==> self.halfedges.contains_key(#[trigger] ring[j]),
        ensures
            self.targets(ring).len() == ring.len(),
        decreases ring.len(),
    {
        if ring.len() > 0 {
            assert(self.halfedges.contains_key(ring[0]));
            let rest = ring.drop_first();
            assert forall|j: int| 0 <= j < rest.len() implies self.halfedges.contains_key(
                #[trigger] rest[j],
            ) by {
                assert(rest[j] == ring[j + 1]);
            }
            self.lemma_live_ring_targets(rest);
        }
    }

    /// Rotation closure. In a graph with sound links, take a vertex whose
    /// counter-clockwise ring comes back to the stored halfedge. Then the
    /// clockwise walk from the stored halfedge comes back to it after
    /// exactly as many steps as the vertex has neighbours, and not before.
    pub proof fn law_rotation_closes(self, v: VertexId, h: HalfedgeId)
        requires
            self.links_sound(),
            self.vertex_halfedge(v) == Ok::<HalfedgeId, SMeshError>(h),
            self.vertex_halfedges(v).len() > 0,
            self.ccw(self.vertex_halfedges(v).last()) == Ok::<HalfedgeId, SMeshError>(h),
        ensures
            self.vertex_valence(v) == self.vertex_halfedges(v).len(),
            self.cw_steps(h, self.vertex_valence(v)) == Ok::<HalfedgeId, SMeshError>(h),
            forall|k: nat|
                0 < k < self.vertex_valence(v) ==> #[trigger] self.cw_steps(h, k) is Ok
                    && self.cw_steps(h, k) != Ok::<HalfedgeId, SMeshError>(h),
    {
        let ring = self.vertex_halfedges(v);
        assert(self.halfedges.contains_key(h));
        assert(self.n_halfedges > 0) by {
            if self.n_halfedges == 0 {
                assert(self.orbit_from(Turn::Ccw, h, h, 0) =~= Seq::empty());
            }
        }
        self.lemma_orbit_shape(h, h, self.n_halfedges);
        assert forall|j: int| 0 <= j < ring.len() implies self.halfedges.contains_key(
            #[trigger] ring[j],
        ) by {
            if j > 0 {
                assert(self.ccw(ring[j - 1]) == Ok::<HalfedgeId, SMeshError>(ring[j]));
                self.lemma_cw_undoes_ccw(ring[j - 1]);
            }
        }
        self.lemma_live_ring_targets(ring);
        self.lemma_cw_runs_back(ring, h, ring.len());
        assert forall|k: nat| 0 < k < self.vertex_valence(v) implies #[trigger] self.cw_steps(h, k)
            is Ok && self.cw_steps(h, k) != Ok::<HalfedgeId, SMeshError>(h) by {
            self.lemma_cw_runs_back(ring, h, k);
            assert(ring[ring.len() - k] != h);
        }
    }

    /// Valence sum. A face that is constructed over at least three different
    /// vertices without any connectivity is always made. It adds no vertex,
    /// two halfedges for each of its sides and one face, and its corners are
    /// the given vertices in their order, so that it has as many corners as
    /// vertices were given.
    pub proof fn law_face_over_lone_polygon(
        self,
        vs: Seq<VertexId>,
        after: Graph,
        r: SMeshResult<FaceId>,
    )
        requires
            lone_polygon(self, vs),
            self.made_face(vs, after, r),
        ensures
            r is Ok,
            after.n_vertices == self.n_vertices,
            after.n_halfedges == self.n_halfedges + 2 * vs.len(),
            after.n_faces == self.n_faces + 1,
            after.face_vertices(r->Ok_0) == vs,
            after.face_valence(r->Ok_0) == vs.len(),
            exists|keys: Seq<(HalfedgeId, HalfedgeId)>| #[trigger]
                polygon_made(self, after, vs, keys, r->Ok_0),
    {
        self.lemma_lone_plan(vs);
        let plan = FacePlan { existing: no_sides(vs.len()), relinks: Seq::empty() };
        let (keys, f) = choose|keys: Seq<(HalfedgeId, HalfedgeId)>, f: FaceId| #[trigger]
            self.face_built(vs, plan, keys, f, after, r);
        lemma_build_lone_polygon(self, vs, keys, f);
        assert forall|k: int, l: int| 0 <= k < l < keys.len() implies (#[trigger] keys[k]).0 != (
        #[trigger] keys[l]).0 by {
            assert(plan.existing[k] is None && plan.existing[l] is None);
        }
        lemma_polygon_rings(self, after, vs, keys, f);
        assert(polygon_made(self, after, vs, keys, f));
    }

    /// Round trip. Take at least three different vertices without any
    /// connectivity. A face that is constructed over them and removed again
    /// right away takes the vertices with it and leaves the rest of the
    /// graph as it was: no halfedge and no face is left of it. In a graph
    /// that held nothing but those vertices, nothing is left at all.
    pub proof fn law_make_then_delete(
        self,
        vs: Seq<VertexId>,
        mid: Graph,
        r: SMeshResult<FaceId>,
    )
        requires
            lone_polygon(self, vs),
            self.n_vertices >= vs.len(),
            self.made_face(vs, mid, r),
        ensures
            r is Ok,
            Edit::of(mid).delete_face(r->Ok_0).err is None,
            polygon_gone(self, Edit::of(mid).delete_face(r->Ok_0).g, vs),
            self.n_vertices == vs.len() && self.n_halfedges == 0 && self.n_faces == 0 ==> Edit::of(
                mid,
            ).delete_face(r->Ok_0).g.n_vertices == 0 && Edit::of(mid).delete_face(
                r->Ok_0,
            ).g.n_halfedges == 0 && Edit::of(mid).delete_face(r->Ok_0).g.n_faces == 0,
    {
        self.law_face_over_lone_polygon(vs, mid, r);
        let f = r->Ok_0;
        let keys = choose|keys: Seq<(HalfedgeId, HalfedgeId)>| #[trigger]
            polygon_made(self, mid, vs, keys, f);
        assert(removal_ground(self, vs, keys)) by {
            assert forall|k: int| 0 <= k < keys.len() implies !self.halfedges.contains_key(
                (#[trigger] keys[k]).0,
            ) && !self.halfedges.contains_key(keys[k].1) && keys[k].0 != keys[k].1 by {
                assert(no_sides(vs.len())[k] is None);
            }
            assert forall|k: int, l: int| 0 <= k < l < keys.len() implies (#[trigger] keys[k]).0
                != (#[trigger] keys[l]).0 && keys[k].0 != keys[l].1 && keys[k].1 != keys[l].0
                && keys[k].1 != keys[l].1 by {
                assert(no_sides(vs.len())[k] is None && no_sides(vs.len())[l] is None);
            }
        }
        lemma_delete_lone_face(self, mid, vs, keys, f);
    }

    /// There are no more live halfedges than the count of halfedges says.
    pub open spec fn halfedges_counted(self) -> bool {
        self.halfedges.dom().finite() && self.halfedges.dom().len() <= self.n_halfedges
    }

    /// In a graph with whole and sound links a counter-clockwise step from a
    /// live halfedge leads to a live halfedge.
    pub proof fn lemma_ccw_is_total(self, h: HalfedgeId)
        requires
            self.links_sound(),
            self.links_whole(),
            self.halfedges.contains_key(h),
        ensures
            self.ccw(h) is Ok,
            self.halfedges.contains_key(self.ccw(h)->Ok_0),
            self.cw(self.ccw(h)->Ok_0) == Ok::<HalfedgeId, SMeshError>(h),
    {
        assert(self.sound_at(h));
        assert(self.whole_at(h));
        let p = self.halfedges[h].prev->Some_0;
        assert(self.halfedges.contains_key(p));
        assert(self.sound_at(p));
        assert(self.whole_at(p));
        self.lemma_cw_undoes_ccw(h);
    }

    /// A counter-clockwise walk that has not come to its end by running out
    /// of fuel ends where the next step fails or leads back to the start.
    pub proof fn lemma_orbit_end(self, start: HalfedgeId, cur: HalfedgeId, fuel: nat)
        requires
            fuel > 0,
            self.orbit_from(Turn::Ccw, start, cur, fuel).len() < fuel,
        ensures
            self.ccw(self.orbit_from(Turn::Ccw, start, cur, fuel).last()) is Err || self.ccw(
                self.orbit_from(Turn::Ccw, start, cur, fuel).last(),
            ) == Ok::<HalfedgeId, SMeshError>(start),
        decreases fuel,
    {
        match self.ccw(cur) {
            Ok(nx) => {
                if nx != start {
                    let rest = self.orbit_from(Turn::Ccw, start, nx, (fuel - 1) as nat);
                    let s = self.orbit_from(Turn::Ccw, start, cur, fuel);
                    assert(s == seq![cur] + rest);
                    if fuel > 1 {
                        self.lemma_orbit_shape(start, nx, (fuel - 1) as nat);
                        self.lemma_orbit_end(start, nx, (fuel - 1) as nat);
                        assert(s.last() == rest.last());
                    } else {
                        assert(rest.len() == 0);
                    }
                }
            },
            Err(_) => {},
        }
    }

    /// The halfedges of a counter-clockwise walk from a live halfedge differ
    /// from each other and are live, where the links are whole and sound.
    pub proof fn lemma_ring_is_simple(self, ring: Seq<HalfedgeId>, h: HalfedgeId)
        requires
            self.links_sound(),
            self.links_whole(),
            self.halfedges.contains_key(h),
            ring.len() >= 1,
            ring[0] == h,
            forall|j: int|
                0 <= j < ring.len() - 1 ==> self.ccw(#[trigger] ring[j]) == Ok::<
                    HalfedgeId,
                    SMeshError,
                >(ring[j + 1]),
            forall|j: int| 1 <= j < ring.len() ==> #[trigger] ring[j] != h,
        ensures
            forall|j: int| 0 <= j < ring.len() ==> self.halfedges.contains_key(#[trigger] ring[j]),
            ring.no_duplicates(),
    {
        assert forall|j: int| 0 <= j < ring.len() implies self.halfedges.contains_key(
            #[trigger] ring[j],
        ) by {
            self.lemma_ring_is_live(ring, h, j);
        }
        assert forall|i: int, j: int| 0 <= i < ring.len() && 0 <= j < ring.len() && i != j implies ring[i]
            != ring[j] by {
            if i < j {
                self.lemma_ring_apart(ring, h, i, j);
            } else {
                self.lemma_ring_apart(ring, h, j, i);
            }
        }
    }

    proof fn lemma_ring_is_live(self, ring: Seq<HalfedgeId>, h: HalfedgeId, j: int)
        requires
            self.links_sound(),
            self.links_whole(),
            self.halfedges.contains_key(h),
            ring.len() >= 1,
            ring[0] == h,
            forall|k: int|
                0 <= k < ring.len() - 1 ==> self.ccw(#[trigger] ring[k]) == Ok::<
                    HalfedgeId,
                    SMeshError,
                >(ring[k + 1]),
            0 <= j < ring.len(),
        ensures
            self.halfedges.contains_key(ring[j]),
        decreases j,
    {
        if j > 0 {
            self.lemma_ring_is_live(ring, h, j - 1);
            self.lemma_ccw_is_total(ring[j - 1]);
            assert(self.ccw(ring[j - 1]) == Ok::<HalfedgeId, SMeshError>(ring[j]));
        }
    }

    proof fn lemma_ring_apart(self, ring: Seq<HalfedgeId>, h: HalfedgeId, i: int, j: int)
        requires
            self.links_sound(),
            self.links_whole(),
            self.halfedges.contains_key(h),
            ring.len() >= 1,
            ring[0] == h,
            forall|k: int|
                0 <= k < ring.len() - 1 ==> self.ccw(#[trigger] ring[k]) == Ok::<
                    HalfedgeId,
                    SMeshError,
                >(ring[k + 1]),
            forall|k: int| 1 <= k < ring.len() ==> #[trigger] ring[k] != h,
            0 <= i < j < ring.len(),
        ensures
            ring[i] != ring[j],
        decreases i,
    {
        if i > 0 {
            self.lemma_ring_apart(ring, h, i - 1, j - 1);
            self.lemma_ring_is_live(ring, h, i - 1);
            self.lemma_ring_is_live(ring, h, j - 1);
            self.lemma_ccw_is_total(ring[i - 1]);
            self.lemma_ccw_is_total(ring[j - 1]);
            assert(self.ccw(ring[i - 1]) == Ok::<HalfedgeId, SMeshError>(ring[i]));
            assert(self.ccw(ring[j - 1]) == Ok::<HalfedgeId, SMeshError>(ring[j]));
            if ring[i] == ring[j] {
                assert(self.cw(ring[i]) == Ok::<HalfedgeId, SMeshError>(ring[i - 1]));
                assert(self.cw(ring[j]) == Ok::<HalfedgeId, SMeshError>(ring[j - 1]));
            }
        }
    }

    /// In a graph with whole and sound links whose halfedges are counted,
    /// the counter-clockwise ring of every live halfedge comes back to it.
    pub proof fn lemma_ring_closes(self, h: HalfedgeId)
        requires
            self.links_sound(),
            self.links_whole(),
            self.halfedges_counted(),
            self.halfedges.contains_key(h),
        ensures
            self.orbit(Turn::Ccw, h).len() > 0,
            self.ccw(self.orbit(Turn::Ccw, h).last()) == Ok::<HalfedgeId, SMeshError>(h),
    {
        let n = self.n_halfedges;
        assert(n > 0) by {
            assert(self.halfedges.dom().contains(h));
            if self.halfedges.dom().len() == 0 {
                self.halfedges.dom().lemma_len0_is_empty();
            }
        }
        let ring = self.orbit(Turn::Ccw, h);
        self.lemma_orbit_shape(h, h, n);
        self.lemma_ring_is_simple(ring, h);
        let last = ring.last();
        self.lemma_ccw_is_total(last);
        let x = self.ccw(last)->Ok_0;
        if x != h {
            if ring.len() < n {
                self.lemma_orbit_end(h, h, n);
            } else {
                // the walk has visited as many halfedges as there are, and
                // the next one is yet another
                let longer = ring.push(x);
                assert forall|j: int| 0 <= j < longer.len() - 1 implies self.ccw(
                    #[trigger] longer[j],
                ) == Ok::<HalfedgeId, SMeshError>(longer[j + 1]) by {
                    if j < ring.len() - 1 {
                        assert(longer[j] == ring[j]);
                        assert(longer[j + 1] == ring[j + 1]);
                    }
                }
                assert forall|j: int| 1 <= j < longer.len() implies #[trigger] longer[j] != h by {
                    if j < ring.len() {
                        assert(longer[j] == ring[j]);
                    }
                }
                self.lemma_ring_is_simple(longer, h);
                longer.unique_seq_to_set();
                assert(longer.to_set().subset_of(self.halfedges.dom())) by {
                    assert forall|y: HalfedgeId| longer.to_set().contains(y) implies self.halfedges.dom().contains(
                        y,
                    ) by {
                        let k = choose|k: int| 0 <= k < longer.len() && longer[k] == y;
                        assert(self.halfedges.contains_key(longer[k]));
                    }
                }
                vstd::set_lib::lemma_len_subset(longer.to_set(), self.halfedges.dom());
            }
        }
    }

    /// Rotation closure. In a graph with whole and sound links whose
    /// halfedges are counted, take any vertex that stores a live halfedge.
    /// The clockwise walk from the stored halfedge comes back to it after
    /// exactly as many steps as the vertex has neighbours, and not before.
    pub proof fn law_rotation_closure(self, v: VertexId, h: HalfedgeId)
        requires
            self.links_sound(),
            self.links_whole(),
            self.halfedges_counted(),
            self.vertex_halfedge(v) == Ok::<HalfedgeId, SMeshError>(h),
            self.halfedges.contains_key(h),
        ensures
            self.vertex_valence(v) >= 1,
            self.cw_steps(h, self.vertex_valence(v)) == Ok::<HalfedgeId, SMeshError>(h),
            forall|k: nat|
                0 < k < self.vertex_valence(v) ==> #[trigger] self.cw_steps(h, k) is Ok
                    && self.cw_steps(h, k) != Ok::<HalfedgeId, SMeshError>(h),
    {
        self.lemma_ring_closes(h);
        self.law_rotation_closes(v, h);
    }

    /// Valence sum. Take a graph in which no vertex stores and no halfedge
    /// names as its previous a halfedge that is not live, and a face that was
    /// constructed in it over vertices between which no side was there yet.
    /// The construction has added two halfedges for each side, and the
    /// corners of the face are the given vertices in their order, so that
    /// the face has as many corners as vertices were given.
    pub proof fn law_valence_sum(self, vs: Seq<VertexId>, after: Graph, r: SMeshResult<FaceId>)
        requires
            self.no_dangling(),
            self.made_face(vs, after, r),
            r is Ok,
            self.face_plan(vs) is Ok ==> forall|i: int|
                0 <= i < vs.len() ==> (#[trigger] self.face_plan(vs)->Ok_0.existing[i]) is None,
        ensures
            after.n_halfedges == self.n_halfedges + 2 * vs.len(),
            after.face_vertices(r->Ok_0) == vs,
            after.face_valence(r->Ok_0) == vs.len(),
    {
        let n = vs.len() as int;
        self.lemma_face_plan_len(vs);
        let plan = self.face_plan(vs)->Ok_0;
        assert(self.face_plan(vs) is Ok);
        assert(plan.existing =~= no_sides(vs.len()));
        self.lemma_lone_relinks(vs.len(), 0);
        assert(plan.relinks == Seq::<(HalfedgeId, HalfedgeId)>::empty());
        let (keys, f) = choose|keys: Seq<(HalfedgeId, HalfedgeId)>, f: FaceId| #[trigger]
            self.face_built(vs, plan, keys, f, after, r);
        assert(r == Ok::<FaceId, SMeshError>(f));
        lemma_new_face_ring(self, vs, keys, f);
    }
}

/// The links of a side of a polygon that was built are whole and sound.
proof fn lemma_polygon_side_links(
    g: Graph,
    after: Graph,
    vs: Seq<VertexId>,
    keys: Seq<(HalfedgeId, HalfedgeId)>,
    f: FaceId,
    k: int,
)
    requires
        vs.len() >= 3,
        0 <= k < vs.len(),
        polygon_built(g, after, vs, keys, f),
    ensures
        after.sound_at(keys[k].0),
        after.sound_at(keys[k].1),
        after.whole_at(keys[k].0),
        after.whole_at(keys[k].1),
{
    let n = vs.len() as int;
    let a = next_index(k, n);
    let b = prev_index(k, n);
    assert(prev_index(a, n) == k && next_index(b, n) == k);
    assert(after.halfedges.contains_key(keys[k].0));
    assert(after.halfedges.contains_key(keys[a].0));
    assert(after.halfedges.contains_key(keys[b].0));
    assert(after.halfedges[keys[k].0].next == Some(keys[a].0));
    assert(after.halfedges[keys[a].0].prev == Some(keys[k].0));
    assert(after.halfedges[keys[b].0].next == Some(keys[k].0));
    assert(after.halfedges[keys[k].1].next == Some(keys[b].1));
    assert(after.halfedges[keys[b].1].prev == Some(keys[k].1));
    assert(after.halfedges[keys[a].1].next == Some(keys[k].1));
    assert(after.halfedges[keys[k].1].opposite == Some(keys[k].0));
}

/// The links of a halfedge that was there before a polygon was built are as
/// they were.
proof fn lemma_polygon_old_links(
    g: Graph,
    after: Graph,
    vs: Seq<VertexId>,
    keys: Seq<(HalfedgeId, HalfedgeId)>,
    f: FaceId,
    h: HalfedgeId,
)
    requires
        polygon_built(g, after, vs, keys, f),
        g.halfedges.contains_key(h),
        g.sound_at(h),
        g.whole_at(h),
    ensures
        after.sound_at(h),
        after.whole_at(h),
{
    assert(after.halfedges.contains_key(h));
    assert(after.halfedges[h] == g.halfedges[h]);
    let o = g.halfedges[h].opposite->Some_0;
    let x = g.halfedges[h].next->Some_0;
    let p = g.halfedges[h].prev->Some_0;
    assert(after.halfedges.contains_key(o) && after.halfedges[o] == g.halfedges[o]);
    assert(after.halfedges.contains_key(x) && after.halfedges[x] == g.halfedges[x]);
    assert(after.halfedges.contains_key(p) && after.halfedges[p] == g.halfedges[p]);
}

/// The side of a polygon that a halfedge belongs to which was not there
/// before the polygon was built.
proof fn lemma_polygon_side_of(
    g: Graph,
    after: Graph,
    vs: Seq<VertexId>,
    keys: Seq<(HalfedgeId, HalfedgeId)>,
    f: FaceId,
    h: HalfedgeId,
) -> (k: int)
    requires
        polygon_built(g, after, vs, keys, f),
        after.halfedges.contains_key(h),
        !g.halfedges.contains_key(h),
    ensures
        0 <= k < vs.len(),
        h == keys[k].0 || h == keys[k].1,
{
    let n = vs.len() as int;
    choose|k: int| 0 <= k < n && (h == (#[trigger] keys[k]).0 || h == keys[k].1)
}

/// Building a polygon in a graph whose halfedges are counted leaves them
/// counted.
proof fn lemma_polygon_counted(
    g: Graph,
    after: Graph,
    vs: Seq<VertexId>,
    keys: Seq<(HalfedgeId, HalfedgeId)>,
    f: FaceId,
)
    requires
        g.halfedges_counted(),
        after.n_halfedges == g.n_halfedges + 2 * vs.len(),
        forall|h: HalfedgeId|
            after.halfedges.contains_key(h) && !g.halfedges.contains_key(h) ==> exists|k: int|
                0 <= k < vs.len() && (h == (#[trigger] keys[k]).0 || h == keys[k].1),
    ensures
        after.halfedges_counted(),
{
    let inner = Seq::new(vs.len(), |k: int| keys[k].0);
    let outer = Seq::new(vs.len(), |k: int| keys[k].1);
    inner.lemma_cardinality_of_set();
    outer.lemma_cardinality_of_set();
    vstd::seq_lib::seq_to_set_is_finite(inner);
    vstd::seq_lib::seq_to_set_is_finite(outer);
    let fresh = inner.to_set().union(outer.to_set());
    vstd::set_lib::lemma_len_union(inner.to_set(), outer.to_set());
    let all = g.halfedges.dom().union(fresh);
    vstd::set_lib::lemma_len_union(g.halfedges.dom(), fresh);
    assert forall|h: HalfedgeId| after.halfedges.dom().contains(h) implies all.contains(h) by {
        if !g.halfedges.contains_key(h) {
            let k = choose|k: int|
                0 <= k < vs.len() && (h == (#[trigger] keys[k]).0 || h == keys[k].1);
            assert(inner[k] == keys[k].0 && outer[k] == keys[k].1);
            assert(inner.contains(keys[k].0) && outer.contains(keys[k].1));
        }
    }
    vstd::set_lib::lemma_len_subset(after.halfedges.dom(), all);
}

/// Every corner of a polygon that was built stores a live halfedge.
proof fn lemma_polygon_corner(
    g: Graph,
    after: Graph,
    vs: Seq<VertexId>,
    keys: Seq<(HalfedgeId, HalfedgeId)>,
    f: FaceId,
    i: int,
)
    requires
        lone_polygon(g, vs),
        0 <= i < vs.len(),
        polygon_built(g, after, vs, keys, f),
    ensures
        after.vertex_halfedge(vs[i]) is Ok,
        after.halfedges.contains_key(after.vertex_halfedge(vs[i])->Ok_0),
{
    let n = vs.len() as int;
    let b = prev_index(i, n);
    assert(after.vertices[vs[i]] == (Vertex { halfedge: Some(keys[b].1) }));
    assert(after.vertices.dom().contains(vs[i]));
    assert(after.halfedges.contains_key(keys[b].0));
}

/// A polygon that was built in a graph with whole and sound links leaves
/// the links whole and sound.
proof fn lemma_polygon_links(
    g: Graph,
    after: Graph,
    vs: Seq<VertexId>,
    keys: Seq<(HalfedgeId, HalfedgeId)>,
    f: FaceId,
    h: HalfedgeId,
)
    requires
        vs.len() >= 3,
        polygon_built(g, after, vs, keys, f),
        g.sound_at(h),
        g.whole_at(h),
    ensures
        after.sound_at(h),
        after.whole_at(h),
{
    if after.halfedges.contains_key(h) {
        if g.halfedges.contains_key(h) {
            lemma_polygon_old_links(g, after, vs, keys, f, h);
        } else {
            let k = lemma_polygon_side_of(g, after, vs, keys, f, h);
            lemma_polygon_side_links(g, after, vs, keys, f, k);
        }
    }
}

impl Graph {
    /// A face over a lone polygon keeps the graph in order. Where every
    /// live halfedge had an opposite, a next and a previous halfedge that
    /// refer back to it, and the halfedges were counted, the same holds
    /// after the construction, and every corner of the face then stores a
    /// live halfedge: the rotation around each corner closes.
    pub proof fn law_lone_polygon_keeps_links(
        self,
        vs: Seq<VertexId>,
        after: Graph,
        r: SMeshResult<FaceId>,
    )
        requires
            self.links_sound(),
            self.links_whole(),
            self.halfedges_counted(),
            lone_polygon(self, vs),
            self.made_face(vs, after, r),
        ensures
            after.links_sound(),
            after.links_whole(),
            after.halfedges_counted(),
            forall|i: int|
                0 <= i < vs.len() ==> after.vertex_halfedge(#[trigger] vs[i]) is Ok
                    && after.halfedges.contains_key(after.vertex_halfedge(vs[i])->Ok_0),
    {
        self.law_face_over_lone_polygon(vs, after, r);
        let f = r->Ok_0;
        let keys = choose|keys: Seq<(HalfedgeId, HalfedgeId)>| #[trigger]
            polygon_made(self, after, vs, keys, f);
        assert forall|h: HalfedgeId| #[trigger] after.sound_at(h) by {
            assert(self.sound_at(h) && self.whole_at(h));
            lemma_polygon_links(self, after, vs, keys, f, h);
        }
        assert forall|h: HalfedgeId| #[trigger] after.whole_at(h) by {
            assert(self.sound_at(h) && self.whole_at(h));
            lemma_polygon_links(self, after, vs, keys, f, h);
        }
        lemma_polygon_counted(self, after, vs, keys, f);
        assert forall|i: int| 0 <= i < vs.len() implies after.vertex_halfedge(#[trigger] vs[i])
            is Ok && after.halfedges.contains_key(after.vertex_halfedge(vs[i])->Ok_0) by {
            lemma_polygon_corner(self, after, vs, keys, f, i);
        }
    }
}

/// After a polygon was built, every halfedge is joined as before or as the
/// polygon joins it.
proof fn lemma_polygon_joined(
    g: Graph,
    after: Graph,
    vs: Seq<VertexId>,
    keys: Seq<(HalfedgeId, HalfedgeId)>,
    f: FaceId,
    h: HalfedgeId,
)
    requires
        vs.len() >= 3,
        polygon_built(g, after, vs, keys, f),
        g.sound_at(h),
        g.joined_at(h),
    ensures
        after.joined_at(h),
{
    let n = vs.len() as int;
    if after.halfedges.contains_key(h) {
        if g.halfedges.contains_key(h) {
            assert(after.halfedges.contains_key(h));
            assert(after.halfedges[h] == g.halfedges[h]);
            match (g.halfedges[h].prev, g.halfedges[h].opposite) {
                (Some(p), Some(o)) => {
                    assert(after.halfedges.contains_key(p));
                    assert(after.halfedges[p] == g.halfedges[p]);
                    assert(after.halfedges.contains_key(o));
                    assert(after.halfedges[o] == g.halfedges[o]);
                },
                _ => {},
            }
        } else {
            let k = lemma_polygon_side_of(g, after, vs, keys, f, h);
            let a = next_index(k, n);
            let b = prev_index(k, n);
            assert(next_index(b, n) == k);
            assert(after.halfedges.contains_key(keys[k].0));
            assert(after.halfedges.contains_key(keys[a].0));
            assert(after.halfedges.contains_key(keys[b].0));
            assert(after.halfedges[keys[k].0].prev == Some(keys[b].0));
            assert(after.halfedges[keys[b].0].vertex == vs[k]);
            assert(after.halfedges[keys[k].1].vertex == vs[k]);
            assert(after.halfedges[keys[k].1].prev == Some(keys[a].1));
            assert(after.halfedges[keys[a].1].vertex == vs[a]);
            assert(after.halfedges[keys[k].0].vertex == vs[a]);
        }
    }
}

/// After a polygon was built, every vertex stores a halfedge that leaves
/// it, if it stored one before or is a corner of the polygon.
proof fn lemma_polygon_spoke(
    g: Graph,
    after: Graph,
    vs: Seq<VertexId>,
    keys: Seq<(HalfedgeId, HalfedgeId)>,
    f: FaceId,
    v: VertexId,
)
    requires
        lone_polygon(g, vs),
        polygon_built(g, after, vs, keys, f),
        g.links_sound(),
        g.spoke_at(v),
    ensures
        after.spoke_at(v),
{
    let n = vs.len() as int;
    if after.vertices.contains_key(v) {
        assert(g.vertices.contains_key(v)) by {
            assert(after.vertices.dom().contains(v));
        }
        if vs.contains(v) {
            let j = choose|j: int| 0 <= j < vs.len() && vs[j] == v;
            let b = prev_index(j, n);
            assert(next_index(b, n) == j);
            assert(after.vertices[vs[j]] == (Vertex { halfedge: Some(keys[b].1) }));
            assert(after.halfedges.contains_key(keys[b].0));
            assert(after.halfedges[keys[b].1].opposite == Some(keys[b].0));
            assert(after.halfedges[keys[b].0].vertex == vs[j]);
        } else {
            assert(after.vertices[v] == g.vertices[v]);
            match g.vertices[v].halfedge {
                Some(h) => {
                    assert(g.halfedges.contains_key(h));
                    assert(g.sound_at(h));
                    let o = g.halfedges[h].opposite->Some_0;
                    assert(after.halfedges.contains_key(h));
                    assert(after.halfedges[h] == g.halfedges[h]);
                    assert(after.halfedges.contains_key(o));
                    assert(after.halfedges[o] == g.halfedges[o]);
                },
                None => {},
            }
        }
    }
}

impl Graph {
    /// A face over a lone polygon keeps a graph in order.
    pub proof fn law_lone_polygon_stays_in_order(
        self,
        vs: Seq<VertexId>,
        after: Graph,
        r: SMeshResult<FaceId>,
    )
        requires
            self.in_order(),
            lone_polygon(self, vs),
            self.made_face(vs, after, r),
        ensures
            r is Ok,
            after.in_order(),
    {
        self.law_face_over_lone_polygon(vs, after, r);
        self.law_lone_polygon_keeps_links(vs, after, r);
        let f = r->Ok_0;
        let keys = choose|keys: Seq<(HalfedgeId, HalfedgeId)>| #[trigger]
            polygon_made(self, after, vs, keys, f);
        assert forall|h: HalfedgeId| #[trigger] after.joined_at(h) by {
            assert(self.sound_at(h) && self.joined_at(h));
            lemma_polygon_joined(self, after, vs, keys, f, h);
        }
        assert forall|v: VertexId| #[trigger] after.spoke_at(v) by {
            assert(self.spoke_at(v));
            lemma_polygon_spoke(self, after, vs, keys, f, v);
        }
    }

    /// The graph without any record is in order.
    pub proof fn law_empty_graph_is_in_order()
        ensures
            Graph::empty().in_order(),
    {
        let g = Graph::empty();
        assert forall|h: HalfedgeId| #[trigger] g.sound_at(h) by {}
        assert forall|h: HalfedgeId| #[trigger] g.whole_at(h) by {}
        assert forall|h: HalfedgeId| #[trigger] g.joined_at(h) by {}
        assert forall|v: VertexId| #[trigger] g.spoke_at(v) by {}
        assert(g.halfedges.dom() =~= Set::<HalfedgeId>::empty());
    }

    /// Rotation closure in a graph in order. Around every vertex that
    /// stores a halfedge, the clockwise walk from that halfedge comes back
    /// to it after exactly as many steps as the vertex has neighbours, and
    /// not before.
    pub proof fn law_rotation_closure_in_order(self, v: VertexId)
        requires
            self.in_order(),
            self.vertex_halfedge(v) is Ok,
        ensures
            self.vertex_valence(v) >= 1,
            self.cw_steps(self.vertex_halfedge(v)->Ok_0, self.vertex_valence(v))
                == self.vertex_halfedge(v),
            forall|k: nat|
                0 < k < self.vertex_valence(v) ==> #[trigger] self.cw_steps(
                    self.vertex_halfedge(v)->Ok_0,
                    k,
                ) is Ok && self.cw_steps(self.vertex_halfedge(v)->Ok_0, k) != self.vertex_halfedge(v),
    {
        let h = self.vertex_halfedge(v)->Ok_0;
        assert(self.spoke_at(v));
        assert(self.halfedges.contains_key(h));
        self.law_rotation_closure(v, h);
    }

    /// An isolated vertex more keeps a graph in order.
    pub proof fn law_new_vertex_stays_in_order(self, v: VertexId)
        requires
            self.in_order(),
            !self.vertices.contains_key(v),
        ensures
            Edit::of(self).add_vertex(v).g.in_order(),
    {
        let after = Edit::of(self).add_vertex(v).g;
        assert(after.halfedges == self.halfedges);
        assert forall|h: HalfedgeId| #[trigger] after.sound_at(h) by {
            assert(self.sound_at(h));
        }
        assert forall|h: HalfedgeId| #[trigger] after.whole_at(h) by {
            assert(self.whole_at(h));
        }
        assert forall|h: HalfedgeId| #[trigger] after.joined_at(h) by {
            assert(self.joined_at(h));
        }
        assert forall|w: VertexId| #[trigger] after.spoke_at(w) by {
            assert(self.spoke_at(w));
        }
    }
}

impl Graph {
    /// The `i`-th of the halfedges is on the boundary.
    pub open spec fn gap_at(self, hs: Seq<HalfedgeId>, i: int) -> bool {
        0 <= i < hs.len() && self.he_is_boundary(hs[i])
    }

    /// Two of the halfedges, at different places, are on the boundary.
    pub open spec fn gaps_at(self, hs: Seq<HalfedgeId>, i: int, j: int) -> bool {
        i < j && self.gap_at(hs, i) && self.gap_at(hs, j)
    }

    /// The count of boundary halfedges is positive exactly where one of the
    /// halfedges is on the boundary, and two or more exactly where two are.
    pub proof fn lemma_boundary_count(self, hs: Seq<HalfedgeId>)
        ensures
            self.boundary_count(hs) >= 1 <==> exists|i: int| #[trigger] self.gap_at(hs, i),
            self.boundary_count(hs) >= 2 <==> exists|i: int, j: int| #[trigger]
                self.gaps_at(hs, i, j),
        decreases hs.len(),
    {
        if hs.len() != 0 {
            let rest = hs.drop_first();
            self.lemma_boundary_count(rest);
            assert forall|i: int| 0 <= i < rest.len() implies (#[trigger] self.gap_at(rest, i)
                <==> self.gap_at(hs, i + 1)) by {
                assert(rest[i] == hs[i + 1]);
            }
            if self.boundary_count(rest) >= 1 {
                let i = choose|i: int| #[trigger] self.gap_at(rest, i);
                assert(self.gap_at(hs, i + 1));
                if self.he_is_boundary(hs[0]) {
                    assert(self.gaps_at(hs, 0, i + 1));
                }
            }
            if self.boundary_count(rest) >= 2 {
                let (i, j) = choose|i: int, j: int| #[trigger] self.gaps_at(rest, i, j);
                assert(self.gaps_at(hs, i + 1, j + 1));
            }
            if self.he_is_boundary(hs[0]) {
                assert(self.gap_at(hs, 0));
            }
            if exists|i: int| #[trigger] self.gap_at(hs, i) {
                let i = choose|i: int| #[trigger] self.gap_at(hs, i);
                if i > 0 {
                    assert(self.gap_at(rest, i - 1));
                }
            }
            if exists|i: int, j: int| #[trigger] self.gaps_at(hs, i, j) {
                let (i, j) = choose|i: int, j: int| #[trigger] self.gaps_at(hs, i, j);
                assert(self.gap_at(rest, j - 1));
                if i > 0 {
                    assert(self.gap_at(rest, i - 1));
                    assert(self.gaps_at(rest, i - 1, j - 1));
                }
            }
        }
    }

    /// Manifoldness. A vertex is manifold exactly when no two of the
    /// halfedges that leave it are on the boundary: a fan with one gap or
    /// none is manifold, and a vertex at which two fans meet, each with a
    /// gap of its own, is not.
    pub proof fn law_manifold_without_two_gaps(self, v: VertexId)
        ensures
            self.vertex_is_manifold(v) <==> !exists|i: int, j: int| #[trigger]
                self.gaps_at(self.vertex_halfedges(v), i, j),
    {
        self.lemma_boundary_count(self.vertex_halfedges(v));
    }
}

} // verus!
