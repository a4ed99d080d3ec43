use vstd::prelude::*;
use crate::edit::Edit;
use crate::error::{SMeshError, SMeshResult};
use crate::graph::{Graph, Turn};
use crate::mesh_elements::{Halfedge, HalfedgeId, VertexId};
use crate::topological_operations::ok_of;
use crate::extrude_faces::copy_of;

verus! {

impl Graph {
    /// The `k`-th of the halfedges points to the vertex `target`.
    pub open spec fn points_to_at(self, hs: Seq<HalfedgeId>, target: VertexId, k: int) -> bool {
        0 <= k < hs.len() && self.he_vertex(hs[k]) == Ok::<VertexId, SMeshError>(target)
    }

    /// The search along the clockwise walk succeeds exactly where the walk
    /// visits a halfedge that points to the target, and then gives the first
    /// such halfedge.
    pub proof fn lemma_seek_finds(
        self,
        start: HalfedgeId,
        cur: HalfedgeId,
        target: VertexId,
        fuel: nat,
    )
        ensures
            self.seek(start, cur, target, fuel) is Ok <==> exists|k: int| #[trigger]
                self.points_to_at(self.orbit_from(Turn::Cw, start, cur, fuel), target, k),
            self.seek(start, cur, target, fuel) is Ok ==> self.he_vertex(
                self.seek(start, cur, target, fuel)->Ok_0,
            ) == Ok::<VertexId, SMeshError>(target) && self.orbit_from(
                Turn::Cw,
                start,
                cur,
                fuel,
            ).contains(self.seek(start, cur, target, fuel)->Ok_0),
        decreases fuel,
    {
        let ring = self.orbit_from(Turn::Cw, start, cur, fuel);
        if fuel > 0 {
            match self.he_vertex(cur) {
                Err(_) => {
                    assert(self.cw(cur) is Err);
                    assert(ring =~= seq![cur]);
                    assert forall|k: int| !#[trigger] self.points_to_at(ring, target, k) by {}
                },
                Ok(d) => {
                    assert(ring[0] == cur);
                    if d == target {
                        assert(self.points_to_at(ring, target, 0));
                    } else {
                        match self.cw(cur) {
                            Err(_) => {
                                assert(ring =~= seq![cur]);
                                assert forall|k: int| !#[trigger] self.points_to_at(ring, target, k) by {}
                            },
                            Ok(nx) => {
                                if nx == start {
                                    assert(ring =~= seq![cur]);
                                    assert forall|k: int| !#[trigger]
                                        self.points_to_at(ring, target, k) by {}
                                } else {
                                    let rest = self.orbit_from(Turn::Cw, start, nx, (fuel - 1) as nat);
                                    self.lemma_seek_finds(start, nx, target, (fuel - 1) as nat);
                                    assert(ring =~= seq![cur] + rest);
                                    if exists|k: int| #[trigger] self.points_to_at(rest, target, k) {
                                        let k = choose|k: int| #[trigger]
                                            self.points_to_at(rest, target, k);
                                        assert(ring[k + 1] == rest[k]);
                                        assert(self.points_to_at(ring, target, k + 1));
                                        let found = self.seek(start, nx, target, (fuel - 1) as nat)->Ok_0;
                                        let j = choose|j: int| 0 <= j < rest.len() && rest[j] == found;
                                        assert(ring[j + 1] == found);
                                    }
                                    if exists|k: int| #[trigger] self.points_to_at(ring, target, k) {
                                        let k = choose|k: int| #[trigger]
                                            self.points_to_at(ring, target, k);
                                        assert(k != 0);
                                        assert(ring[k] == rest[k - 1]);
                                        assert(self.points_to_at(rest, target, k - 1));
                                    }
                                }
                            },
                        }
                    }
                },
            }
        } else {
            assert forall|k: int| !#[trigger] self.points_to_at(ring, target, k) by {}
        }
    }

    /// Finding a halfedge. The halfedge from `v0` to `v1` is found exactly
    /// where the two vertices differ, `v0` stores a halfedge, and the
    /// clockwise rotation from that halfedge holds one that points to `v1`;
    /// the halfedge found is one of the rotation and points to `v1`.
    pub proof fn law_halfedge_to(self, v0: VertexId, v1: VertexId)
        ensures
            self.halfedge_to(v0, v1) is Ok <==> v0 != v1 && self.vertex_halfedge(v0) is Ok
                && exists|k: int| #[trigger]
                self.points_to_at(
                    self.orbit_from(
                        Turn::Cw,
                        self.vertex_halfedge(v0)->Ok_0,
                        self.vertex_halfedge(v0)->Ok_0,
                        self.n_halfedges,
                    ),
                    v1,
                    k,
                ),
            self.halfedge_to(v0, v1) is Ok ==> self.he_vertex(self.halfedge_to(v0, v1)->Ok_0)
                == Ok::<VertexId, SMeshError>(v1),
    {
        match self.vertex_halfedge(v0) {
            Err(_) => {},
            Ok(h) => {
                if v0 != v1 {
                    self.lemma_seek_finds(h, h, v1, self.n_halfedges);
                }
            },
        }
    }

    /// The wall over the halfedge `h`: along the halfedge and back over the
    /// copies of its ends; or the reason why there is none.
    pub open spec fn rim_wall(self, uniq: Seq<VertexId>, news: Seq<VertexId>, h: HalfedgeId) -> Option<
        Seq<VertexId>,
    > {
        match self.src_vertex(h) {
            Err(_) => None,
            Ok(src) => match self.he_vertex(h) {
                Err(_) => None,
                Ok(dst) => match copy_of(uniq, news, src, 0) {
                    None => None,
                    Some(src_new) => match copy_of(uniq, news, dst, 0) {
                        None => None,
                        Some(dst_new) => Some(seq![src, dst, dst_new, src_new]),
                    },
                },
            },
        }
    }

    /// One wall for each rim halfedge. Where the walls of an extrusion can
    /// be listed, there is one for each halfedge of the rim, in order, and
    /// it runs along the halfedge and back over the copies of its ends.
    pub proof fn law_one_wall_per_rim_halfedge(
        self,
        hs: Seq<HalfedgeId>,
        uniq: Seq<VertexId>,
        news: Seq<VertexId>,
        i: int,
        acc: Seq<Seq<VertexId>>,
    )
        requires
            0 <= i <= hs.len(),
            self.side_quads(hs, uniq, news, i, acc) is Ok,
        ensures
            self.side_quads(hs, uniq, news, i, acc)->Ok_0.len() == acc.len() + hs.len() - i,
            forall|k: int|
                0 <= k < acc.len() ==> #[trigger] self.side_quads(hs, uniq, news, i, acc)->Ok_0[k]
                    == acc[k],
            forall|j: int|
                i <= j < hs.len() ==> self.rim_wall(uniq, news, #[trigger] hs[j]) == Some(
                    self.side_quads(hs, uniq, news, i, acc)->Ok_0[acc.len() + j - i],
                ),
        decreases hs.len() - i,
    {
        if i < hs.len() {
            let wall = self.rim_wall(uniq, news, hs[i])->Some_0;
            let next = acc.push(wall);
            assert(self.side_quads(hs, uniq, news, i, acc) == self.side_quads(
                hs,
                uniq,
                news,
                i + 1,
                next,
            ));
            self.law_one_wall_per_rim_halfedge(hs, uniq, news, i + 1, next);
            let quads = self.side_quads(hs, uniq, news, i, acc)->Ok_0;
            assert forall|k: int| 0 <= k < acc.len() implies #[trigger] quads[k] == acc[k] by {
                assert(next[k] == acc[k]);
            }
            assert(quads[acc.len() as int] == next[acc.len() as int]);
            assert forall|j: int| i <= j < hs.len() implies self.rim_wall(
                uniq,
                news,
                #[trigger] hs[j],
            ) == Some(quads[acc.len() + j - i]) by {
                if j > i {
                    assert(next.len() + j - (i + 1) == acc.len() + j - i);
                }
            }
        }
    }
}

/// The stores on vertices and faces leave every halfedge as it is.
proof fn lemma_other_stores_keep_halfedges(e: Edit)
    ensures
        forall|v: VertexId, h: Option<HalfedgeId>|
            (#[trigger] e.set_vertex_halfedge(v, h)).g.halfedges == e.g.halfedges
                && e.set_vertex_halfedge(v, h).g.n_halfedges == e.g.n_halfedges,
        forall|v: VertexId|
            (#[trigger] e.adjust_outgoing_halfedge(v)).g.halfedges == e.g.halfedges
                && e.adjust_outgoing_halfedge(v).g.n_halfedges == e.g.n_halfedges,
        forall|f: Option<crate::mesh_elements::FaceId>, h: Option<HalfedgeId>|
            (#[trigger] e.set_halfedge_of(f, h)).g.halfedges == e.g.halfedges && e.set_halfedge_of(
                f,
                h,
            ).g.n_halfedges == e.g.n_halfedges,
{
}

impl Graph {
    /// The edge of the halfedge `h0` is in order: its opposite is another
    /// halfedge, which is live, and the halfedge before the opposite, if
    /// there is one, is live and is not `h0` itself.
    pub open spec fn edge_in_order(self, h0: HalfedgeId) -> bool {
        match self.he_opposite(h0) {
            Err(_) => false,
            Ok(o0) => o0 != h0 && self.halfedges.contains_key(o0) && (match self.halfedges[o0].prev {
                Some(p) => p != h0 && self.halfedges.contains_key(p),
                None => true,
            }),
        }
    }

    /// Inserting a vertex. Where the insertion of the vertex `v` into the
    /// edge of `h0` succeeds, on an edge that is in order, it adds two
    /// halfedges and nothing else. The halfedge `h0` now ends at `v` and leads into a new
    /// halfedge, which ends where `h0` ended, has the face of `h0` and leads
    /// where `h0` led: one more corner on that side. The result is the new
    /// halfedge on the other side, which ends at `v`, has the face of that
    /// side and leads into the old opposite of `h0`: one more corner there.
    pub proof fn law_insert_vertex(
        self,
        h0: HalfedgeId,
        v: VertexId,
        after: Graph,
        r: SMeshResult<HalfedgeId>,
    )
        requires
            self.inserted_vertex(h0, v, after, r),
            r is Ok,
            self.edge_in_order(h0),
        ensures
            after.n_halfedges == self.n_halfedges + 2,
            after.n_vertices == self.n_vertices,
            after.n_faces == self.n_faces,
            !self.halfedges.contains_key(r->Ok_0),
            after.he_opposite(r->Ok_0) is Ok,
            !self.halfedges.contains_key(after.he_opposite(r->Ok_0)->Ok_0),
            after.he_vertex(h0) == Ok::<VertexId, SMeshError>(v),
            after.he_next(h0) == after.he_opposite(r->Ok_0),
            after.halfedges[after.he_opposite(r->Ok_0)->Ok_0] == (Halfedge {
                vertex: self.halfedges[h0].vertex,
                face: self.halfedges[h0].face,
                opposite: Some(r->Ok_0),
                prev: Some(h0),
                next: self.halfedges[h0].next,
            }),
            after.he_vertex(r->Ok_0) == Ok::<VertexId, SMeshError>(v),
            after.he_next(r->Ok_0) == self.he_opposite(h0),
            after.halfedges[r->Ok_0].face == self.halfedges[self.he_opposite(h0)->Ok_0].face,
            after.he_prev(self.he_opposite(h0)->Ok_0) == r,
    {
        let o0 = self.he_opposite(h0)->Ok_0;
        let v2 = self.halfedges[h0].vertex;
        let (h1, o1) = choose|h1: HalfedgeId, o1: HalfedgeId|
            {
                &&& !self.halfedges.contains_key(h1)
                &&& !self.halfedges.contains_key(o1)
                &&& h1 != o1
                &&& Edit::after(after, r) == #[trigger] self.split_edge(h0, v, o0, v2, h1, o1)
                &&& (r is Ok ==> r == Ok::<HalfedgeId, SMeshError>(o1))
            };
        let h2 = ok_of(self.he_next(h0));
        let o2 = ok_of(self.he_prev(o0));
        let fh = ok_of(self.he_face(h0));
        let fo = ok_of(self.he_face(o0));
        let e0 = Edit::of(self).add_edge(v, v2, h1, o1);
        let e1 = e0.set_next(h1, h2);
        let e2 = e1.set_vertex(h1, v2);
        let e3 = e2.set_face(h1, fh);
        let e4 = e3.set_next(h0, Some(h1));
        let e5 = e4.set_vertex(h0, v);
        let e6 = e5.set_next(o1, Some(o0));
        let e7 = e6.set_vertex(o1, v);
        let e8 = e7.set_face(o1, fo);
        let e9 = e8.set_next_of(o2, Some(o1));
        let e10 = e9.set_vertex_halfedge(v2, Some(o1));
        let e11 = e10.adjust_outgoing_halfedge(v2);
        let e12 = e11.set_vertex_halfedge(v, Some(h1));
        let e13 = e12.adjust_outgoing_halfedge(v);
        let e14 = e13.set_halfedge_of(fh, Some(h0));
        let e15 = e14.set_halfedge_of(fo, Some(o1));
        assert(e15.err is None && e15.g == after);
        assert(e14.err is None);
        assert(e13.err is None);
        assert(e12.err is None);
        assert(e11.err is None);
        assert(e10.err is None);
        assert(e9.err is None);
        assert(e8.err is None);
        assert(e7.err is None);
        assert(e6.err is None);
        assert(e5.err is None);
        assert(e4.err is None);
        assert(e3.err is None);
        assert(e2.err is None);
        assert(e1.err is None);
        assert(self.halfedges.contains_key(h0) && self.halfedges.contains_key(o0));
        assert(h0 != h1 && h0 != o1 && o0 != h1 && o0 != o1 && h0 != o0);
        assert(e0.g.n_halfedges == self.n_halfedges + 2);
        assert(e0.g.halfedges[h1] == (Halfedge {
            vertex: v2,
            face: None,
            opposite: Some(o1),
            prev: None,
            next: None,
        }));
        assert(e0.g.halfedges[o1].opposite == Some(h1));
        assert(e0.g.halfedges[h0] == self.halfedges[h0]);
        assert(e0.g.halfedges[o0] == self.halfedges[o0]);
        assert(e1.g.halfedges[h1].next == h2 && e1.g.halfedges[h1].opposite == Some(o1)
            && e1.g.halfedges[h1].vertex == v2);
        assert(e1.g.halfedges[h0].next == self.halfedges[h0].next && e1.g.halfedges[h0].face
            == self.halfedges[h0].face);
        assert(e1.g.halfedges[o1].opposite == Some(h1));
        assert(e1.g.halfedges[o0].face == self.halfedges[o0].face);
        assert(e1.g.n_halfedges == self.n_halfedges + 2);
        assert(e3.g.halfedges[h1].next == h2 && e3.g.halfedges[h1].opposite == Some(o1)
            && e3.g.halfedges[h1].vertex == v2 && e3.g.halfedges[h1].face == fh);
        assert(e3.g.halfedges[o1].opposite == Some(h1));
        assert(e3.g.halfedges[o0].face == self.halfedges[o0].face);
        assert(e3.g.halfedges.contains_key(h0));
        assert(e3.g.n_halfedges == self.n_halfedges + 2);
        assert(e4.g.halfedges[h0].next == Some(h1));
        assert(e4.g.halfedges[h1] == (Halfedge {
            vertex: v2,
            face: fh,
            opposite: Some(o1),
            prev: Some(h0),
            next: h2,
        }));
        assert(e4.g.halfedges[o1].opposite == Some(h1));
        assert(e4.g.halfedges[o0].face == self.halfedges[o0].face);
        assert(e5.g.halfedges[h0].next == Some(h1) && e5.g.halfedges[h0].vertex == v);
        assert(e5.g.halfedges[h1] == e4.g.halfedges[h1]);
        assert(e5.g.halfedges[o1].opposite == Some(h1));
        assert(e5.g.halfedges[o0].face == self.halfedges[o0].face);
        assert(e5.g.halfedges.contains_key(o1) && e5.g.halfedges.contains_key(o0));
        assert(e5.g.n_halfedges == self.n_halfedges + 2);
        assert(e6.g.halfedges[o1].next == Some(o0) && e6.g.halfedges[o1].opposite == Some(h1));
        assert(e6.g.halfedges[o0].prev == Some(o1));
        assert(e6.g.halfedges[h0] == e5.g.halfedges[h0]);
        assert(e6.g.halfedges[h1] == e4.g.halfedges[h1]);
        assert(e8.g.halfedges[o1].next == Some(o0) && e8.g.halfedges[o1].opposite == Some(h1)
            && e8.g.halfedges[o1].vertex == v && e8.g.halfedges[o1].face == fo);
        assert(e8.g.halfedges[o0].prev == Some(o1));
        assert(e8.g.halfedges[h0] == e5.g.halfedges[h0]);
        assert(e8.g.halfedges[h1] == e4.g.halfedges[h1]);
        assert(e8.g.n_halfedges == self.n_halfedges + 2);
        assert(e8.g.n_vertices == self.n_vertices && e8.g.n_faces == self.n_faces);
        assert(o2 != Some(h0) && o2 != Some(h1) && o2 != Some(o1));
        assert(e9.g.halfedges[o1].next == Some(o0) && e9.g.halfedges[o1].opposite == Some(h1)
            && e9.g.halfedges[o1].vertex == v && e9.g.halfedges[o1].face == fo);
        assert(e9.g.halfedges[o0].prev == Some(o1));
        assert(e9.g.halfedges[h0] == e5.g.halfedges[h0]);
        assert(e9.g.halfedges[h1] == e4.g.halfedges[h1]);
        assert(e9.g.halfedges.contains_key(h0) && e9.g.halfedges.contains_key(h1)
            && e9.g.halfedges.contains_key(o1) && e9.g.halfedges.contains_key(o0));
        assert(e9.g.n_halfedges == self.n_halfedges + 2);
        assert(e9.g.n_vertices == self.n_vertices && e9.g.n_faces == self.n_faces);
        lemma_other_stores_keep_halfedges(e9);
        lemma_other_stores_keep_halfedges(e10);
        lemma_other_stores_keep_halfedges(e11);
        lemma_other_stores_keep_halfedges(e12);
        lemma_other_stores_keep_halfedges(e13);
        lemma_other_stores_keep_halfedges(e14);
        crate::counts::lemma_stores_keep_counts(e9);
        crate::counts::lemma_stores_keep_counts(e10);
        crate::counts::lemma_stores_keep_counts(e11);
        crate::counts::lemma_stores_keep_counts(e12);
        assert(after.halfedges == e9.g.halfedges);
        assert(after.n_vertices == self.n_vertices && after.n_faces == self.n_faces);
    }
}

} // verus!
