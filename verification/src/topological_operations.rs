use vstd::prelude::*;
use crate::connectivity::Connectivity;
use crate::edit::Edit;
use crate::error::{SMeshError, SMeshResult};
use crate::graph::Graph;
use crate::mesh::SMesh;
use crate::mesh_elements::{FaceId, HalfedgeId, VertexId};

verus! {

/// The value of a result, if it has one.
pub open spec fn ok_of<T>(r: SMeshResult<T>) -> Option<T> {
    match r {
        Ok(x) => Some(x),
        Err(_) => None,
    }
}

impl Edit {
    /// `set_next(h, next)` where there is an `h`.
    pub open spec fn set_next_of(self, h: Option<HalfedgeId>, next: Option<HalfedgeId>) -> Edit {
        match h {
            Some(h) => self.set_next(h, next),
            None => self,
        }
    }

    /// `set_face_halfedge(f, h)` where there is an `f`.
    pub open spec fn set_halfedge_of(self, f: Option<FaceId>, h: Option<HalfedgeId>) -> Edit {
        match f {
            Some(f) => self.set_face_halfedge(f, h),
            None => self,
        }
    }

    /// `drop_face(f)` where there is an `f`.
    pub open spec fn drop_face_of(self, f: Option<FaceId>) -> Edit {
        match f {
            Some(f) => self.drop_face(f),
            None => self,
        }
    }

    /// Stores `v` as the target of each halfedge from the `i`-th on.
    pub open spec fn retarget(self, hs: Seq<HalfedgeId>, v: VertexId, i: int) -> Edit
        decreases hs.len() - i,
    {
        if i < 0 || i >= hs.len() {
            self
        } else {
            let stored = self.set_vertex(hs[i], v);
            if stored.err is Some {
                stored
            } else {
                stored.retarget(hs, v, i + 1)
            }
        }
    }

    /// Stores `f` as the face of each halfedge from the `i`-th on.
    pub open spec fn reface(self, hs: Seq<HalfedgeId>, f: Option<FaceId>, i: int) -> Edit
        decreases hs.len() - i,
    {
        if i < 0 || i >= hs.len() {
            self
        } else {
            let stored = self.set_face(hs[i], f);
            if stored.err is Some {
                stored
            } else {
                stored.reface(hs, f, i + 1)
            }
        }
    }
}

impl Graph {
    /// Every face has three corners.
    pub open spec fn is_triangle_mesh(self) -> bool {
        forall|f: FaceId| self.faces.contains_key(f) ==> #[trigger] self.face_valence(f) == 3
    }

    /// Every face has four corners.
    pub open spec fn is_quad_mesh(self) -> bool {
        forall|f: FaceId| self.faces.contains_key(f) ==> #[trigger] self.face_valence(f) == 4
    }

    /// What splitting the edge of `h0` at the vertex `v` does, with `h1` and
    /// `o1` as the identifiers of the new halfedges: `h0` now ends at `v`,
    /// `h1` runs on from `v` to where `h0` ended, and `o1` runs back to `v`
    /// on the other side.
    pub open spec fn split_edge(
        self,
        h0: HalfedgeId,
        v: VertexId,
        o0: HalfedgeId,
        v2: VertexId,
        h1: HalfedgeId,
        o1: HalfedgeId,
    ) -> Edit {
        let h2 = ok_of(self.he_next(h0));
        let o2 = ok_of(self.he_prev(o0));
        let fh = ok_of(self.he_face(h0));
        let fo = ok_of(self.he_face(o0));
        Edit::of(self).add_edge(v, v2, h1, o1).set_next(h1, h2).set_vertex(h1, v2).set_face(
            h1,
            fh,
        ).set_next(h0, Some(h1)).set_vertex(h0, v).set_next(o1, Some(o0)).set_vertex(
            o1,
            v,
        ).set_face(o1, fo).set_next_of(o2, Some(o1)).set_vertex_halfedge(
            v2,
            Some(o1),
        ).adjust_outgoing_halfedge(v2).set_vertex_halfedge(v, Some(h1)).adjust_outgoing_halfedge(
            v,
        ).set_halfedge_of(fh, Some(h0)).set_halfedge_of(fo, Some(o1))
    }

    /// Splitting the edge under fresh identifiers gives the graph `after`
    /// and the result `r`, which on success is the new halfedge that runs
    /// to `v` on the opposite side.
    pub open spec fn edge_split(
        self,
        h0: HalfedgeId,
        v: VertexId,
        o0: HalfedgeId,
        v2: VertexId,
        after: Graph,
        r: SMeshResult<HalfedgeId>,
    ) -> bool {
        exists|h1: HalfedgeId, o1: HalfedgeId|
            {
                &&& !self.halfedges.contains_key(h1)
                &&& !self.halfedges.contains_key(o1)
                &&& h1 != o1
                &&& Edit::after(after, r) == #[trigger] self.split_edge(h0, v, o0, v2, h1, o1)
                &&& (r is Ok ==> r == Ok::<HalfedgeId, SMeshError>(o1))
            }
    }

    /// The graph `after` and the result `r` are what inserting the vertex
    /// `v` into the edge of `h0` makes of this graph. Where `h0` is not live
    /// or has no opposite, nothing is changed.
    pub open spec fn inserted_vertex(
        self,
        h0: HalfedgeId,
        v: VertexId,
        after: Graph,
        r: SMeshResult<HalfedgeId>,
    ) -> bool {
        match self.he_opposite(h0) {
            Err(e) => r == Err::<HalfedgeId, SMeshError>(e) && after == self,
            Ok(o0) => self.edge_split(h0, v, o0, self.halfedges[h0].vertex, after, r),
        }
    }

    /// The opposites of the halfedges from the `i`-th on, as far as they can
    /// be read, after `acc`.
    pub open spec fn opposites_of(self, hs: Seq<HalfedgeId>, i: int, acc: Seq<HalfedgeId>) -> Seq<
        HalfedgeId,
    >
        decreases hs.len() - i,
    {
        if i < 0 || i >= hs.len() {
            acc
        } else {
            self.opposites_of(
                hs,
                i + 1,
                match self.he_opposite(hs[i]) {
                    Ok(o) => acc.push(o),
                    Err(_) => acc,
                },
            )
        }
    }

    /// The halfedge two steps of `next` after `h`.
    pub open spec fn next_next(self, h: HalfedgeId) -> SMeshResult<HalfedgeId> {
        match self.he_next(h) {
            Err(e) => Err(e),
            Ok(n) => self.he_next(n),
        }
    }

    /// The previous halfedge of the opposite of `h`.
    pub open spec fn opposite_prev(self, h: HalfedgeId) -> SMeshResult<HalfedgeId> {
        match self.he_opposite(h) {
            Err(e) => Err(e),
            Ok(o) => self.he_prev(o),
        }
    }

    /// The face of the opposite of `h`.
    pub open spec fn opposite_face(self, h: HalfedgeId) -> SMeshResult<FaceId> {
        match self.he_opposite(h) {
            Err(e) => Err(e),
            Ok(o) => self.he_face(o),
        }
    }

    /// The apex of the triangle on the side of the halfedge `h`, or nothing
    /// where `h` is on the boundary; `TopologyError` where both other edges
    /// of that triangle have a boundary on their far side.
    pub open spec fn collapse_apex(self, h: HalfedgeId) -> SMeshResult<Option<VertexId>> {
        if self.he_is_boundary(h) {
            Ok(None)
        } else {
            match self.he_next(h) {
                Err(e) => Err(e),
                Ok(h1) => match self.he_next(h1) {
                    Err(e) => Err(e),
                    Ok(h2) => if self.opposite_is_boundary(h1) && self.opposite_is_boundary(h2) {
                        Err(SMeshError::TopologyError)
                    } else {
                        Ok(ok_of(self.he_vertex(h1)))
                    },
                },
            }
        }
    }

    /// Whether one of the neighbours from the `i`-th on, other than `v1` and
    /// the two apexes, has a halfedge to `v1`.
    pub open spec fn rings_meet(
        self,
        ring: Seq<VertexId>,
        v1: VertexId,
        vl: Option<VertexId>,
        vr: Option<VertexId>,
        i: int,
    ) -> bool
        decreases ring.len() - i,
    {
        if i < 0 || i >= ring.len() {
            false
        } else {
            (ring[i] != v1 && Some(ring[i]) != vl && Some(ring[i]) != vr && self.halfedge_to(
                ring[i],
                v1,
            ) is Ok) || self.rings_meet(ring, v1, vl, vr, i + 1)
        }
    }

    /// Whether collapsing the halfedge `v0v1` of a triangle mesh is legal:
    /// `Ok` if it is, the error of a failing read, or `TopologyError`.
    pub open spec fn is_collapse_ok(self, v0v1: HalfedgeId) -> SMeshResult<()> {
        match self.he_opposite(v0v1) {
            Err(e) => Err(e),
            Ok(v1v0) => match self.he_vertex(v1v0) {
                Err(e) => Err(e),
                Ok(v0) => match self.he_vertex(v0v1) {
                    Err(e) => Err(e),
                    Ok(v1) => match self.collapse_apex(v0v1) {
                        Err(e) => Err(e),
                        Ok(vl) => match self.collapse_apex(v1v0) {
                            Err(e) => Err(e),
                            Ok(vr) => if vl is None && vr is None {
                                Err(SMeshError::TopologyError)
                            } else if self.vertex_is_boundary(v0) && self.vertex_is_boundary(v1)
                                && !self.he_is_boundary(v0v1) && !self.he_is_boundary(v1v0) {
                                Err(SMeshError::TopologyError)
                            } else if self.rings_meet(self.vertex_vertices(v0), v1, vl, vr, 0) {
                                Err(SMeshError::TopologyError)
                            } else {
                                Ok(())
                            },
                        },
                    },
                },
            },
        }
    }

    /// Whether `f` is among the faces around one of the corners from the
    /// `i`-th on, the corners `v0` and `v1` left out.
    pub open spec fn corner_touches(
        self,
        corners: Seq<VertexId>,
        v0: VertexId,
        v1: VertexId,
        f: FaceId,
        i: int,
    ) -> bool
        decreases corners.len() - i,
    {
        if i < 0 || i >= corners.len() {
            false
        } else {
            (corners[i] != v0 && corners[i] != v1 && self.vertex_faces(corners[i]).contains(f))
                || self.corner_touches(corners, v0, v1, f, i + 1)
        }
    }

    /// Whether removing the edge of `h0` and merging its two faces is legal:
    /// `Ok` if it is, the error of a failing read, or `TopologyError` where
    /// the two faces are one or meet at another vertex as well.
    pub open spec fn is_removal_ok(self, h0: HalfedgeId) -> SMeshResult<()> {
        match self.he_opposite(h0) {
            Err(e) => Err(e),
            Ok(h1) => match self.he_vertex(h0) {
                Err(e) => Err(e),
                Ok(v0) => match self.he_vertex(h1) {
                    Err(e) => Err(e),
                    Ok(v1) => match self.he_face(h0) {
                        Err(e) => Err(e),
                        Ok(f0) => match self.he_face(h1) {
                            Err(e) => Err(e),
                            Ok(f1) => if f0 == f1 {
                                Err(SMeshError::TopologyError)
                            } else if self.corner_touches(self.face_vertices(f0), v0, v1, f1, 0) {
                                Err(SMeshError::TopologyError)
                            } else {
                                Ok(())
                            },
                        },
                    },
                },
            },
        }
    }

    /// What removing the edge of `h0` does once it is known to be legal: the
    /// loop of the face of `h0` goes over to the face on the other side, the
    /// neighbours are linked past the edge, and the face of `h0` and the
    /// edge are removed.
    pub open spec fn merge_faces(self, h0: HalfedgeId, h1: HalfedgeId, v0: VertexId, v1: VertexId) -> Edit {
        let f0 = ok_of(self.he_face(h0));
        let f1 = ok_of(self.he_face(h1));
        let h0_prev = ok_of(self.he_prev(h0));
        let h0_next = ok_of(self.he_next(h0));
        let h1_prev = ok_of(self.he_prev(h1));
        let h1_next = ok_of(self.he_next(h1));
        let a = if self.vertex_halfedge(v0) == Ok::<HalfedgeId, SMeshError>(h1) {
            Edit::of(self).set_vertex_halfedge(v0, h0_next)
        } else {
            Edit::of(self)
        };
        let b = if a.g.vertex_halfedge(v1) == Ok::<HalfedgeId, SMeshError>(h0) {
            a.set_vertex_halfedge(v1, h1_next)
        } else {
            a
        };
        let c = match f0 {
            Some(f0) => b.reface(b.g.face_halfedges(f0), f1, 0),
            None => b,
        };
        let d = c.set_next_of(h1_prev, h0_next).set_next_of(h0_prev, h1_next);
        let e = match f1 {
            Some(f1) => if d.g.face_halfedge(f1) == Ok::<HalfedgeId, SMeshError>(h1) {
                d.set_face_halfedge(f1, h1_next)
            } else {
                d
            },
            None => d,
        };
        e.drop_face_of(f0).drop_edge(h0)
    }

    /// Removes the edge of `h0` and merges the two faces beside it into one.
    /// Nothing is changed where that is not legal.
    pub open spec fn remove_edge(self, h0: HalfedgeId) -> Edit {
        match self.is_removal_ok(h0) {
            Err(e) => Edit::of(self).fail(e),
            Ok(()) => self.merge_faces(
                h0,
                self.he_opposite(h0)->Ok_0,
                self.halfedges[h0].vertex,
                self.halfedges[self.he_opposite(h0)->Ok_0].vertex,
            ),
        }
    }
}

/// What a collapse reads of its halfedge before it changes anything.
pub struct CollapseSite {
    pub hn: HalfedgeId,
    pub hp: HalfedgeId,
    pub o: HalfedgeId,
    pub on: HalfedgeId,
    pub op: HalfedgeId,
    pub fh: Option<FaceId>,
    pub fo: Option<FaceId>,
    pub vh: VertexId,
    pub vo: VertexId,
}

impl Graph {
    /// The surroundings of the halfedge `h` that its collapse needs.
    pub open spec fn collapse_site(self, h: HalfedgeId) -> SMeshResult<CollapseSite> {
        match self.he_next(h) {
            Err(e) => Err(e),
            Ok(hn) => match self.he_prev(h) {
                Err(e) => Err(e),
                Ok(hp) => match self.cw(h) {
                    Err(e) => Err(e),
                    Ok(on) => match self.opposite_prev(h) {
                        Err(e) => Err(e),
                        Ok(op) => match self.he_vertex(h) {
                            Err(e) => Err(e),
                            Ok(vh) => match self.src_vertex(h) {
                                Err(e) => Err(e),
                                Ok(vo) => Ok(
                                    CollapseSite {
                                        hn,
                                        hp,
                                        o: self.he_opposite(h)->Ok_0,
                                        on,
                                        op,
                                        fh: ok_of(self.he_face(h)),
                                        fo: ok_of(self.opposite_face(h)),
                                        vh,
                                        vo,
                                    },
                                ),
                            },
                        },
                    },
                },
            },
        }
    }
}

impl Edit {
    /// Moves the source vertex of `h` into its target and removes the edge:
    /// every halfedge that pointed to the source now points to the target,
    /// the neighbours are linked past the edge, and the source vertex and
    /// the edge are removed.
    pub open spec fn remove_edge_helper(self, h: HalfedgeId) -> Edit {
        if self.err is Some {
            self
        } else {
            match self.g.collapse_site(h) {
                Err(e) => self.fail(e),
                Ok(s) => {
                    let a = self.retarget(
                        self.g.opposites_of(self.g.vertex_halfedges(s.vo), 0, Seq::empty()),
                        s.vh,
                        0,
                    ).set_next(s.hp, Some(s.hn)).set_next(s.op, Some(s.on)).set_halfedge_of(
                        s.fh,
                        Some(s.hn),
                    ).set_halfedge_of(s.fo, Some(s.on));
                    if a.err is Some {
                        a
                    } else {
                        match a.g.vertex_halfedge(s.vh) {
                            Err(e) => a.fail(e),
                            Ok(stored) => match a.g.he_opposite(h) {
                                Err(e) => a.fail(e),
                                Ok(o) => (if stored == o {
                                    a.set_vertex_halfedge(s.vh, Some(s.hn))
                                } else {
                                    a
                                }).adjust_outgoing_halfedge(s.vh).set_vertex_halfedge(
                                    s.vo,
                                    None,
                                ).drop_vertex(s.vo).drop_edge(h),
                            },
                        }
                    }
                },
            }
        }
    }

    /// Removes a loop of two halfedges that a collapse has left behind: the
    /// edge of `h` goes, and the other halfedge of the loop takes the place
    /// of its opposite.
    pub open spec fn remove_loop_helper(self, h0: HalfedgeId) -> Edit {
        if self.err is Some {
            self
        } else {
            let g = self.g;
            match g.he_next(h0) {
                Err(e) => self.fail(e),
                Ok(h1) => match g.he_opposite(h0) {
                    Err(e) => self.fail(e),
                    Ok(o0) => match g.he_opposite(h1) {
                        Err(e) => self.fail(e),
                        Ok(o1) => match g.he_vertex(h0) {
                            Err(e) => self.fail(e),
                            Ok(v0) => match g.he_vertex(h1) {
                                Err(e) => self.fail(e),
                                Ok(v1) => match g.he_next(h1) {
                                    Err(e) => self.fail(e),
                                    Ok(back) => if !(back == h0 && h1 != o0) {
                                        self.fail(SMeshError::TopologyError)
                                    } else {
                                        self.close_loop(
                                            h0,
                                            h1,
                                            o0,
                                            o1,
                                            v0,
                                            v1,
                                            ok_of(g.he_face(h0)),
                                            ok_of(g.he_face(o0)),
                                        )
                                    },
                                },
                            },
                        },
                    },
                },
            }
        }
    }

    /// The changes of `remove_loop_helper` once its reads have succeeded.
    pub open spec fn close_loop(
        self,
        h0: HalfedgeId,
        h1: HalfedgeId,
        o0: HalfedgeId,
        o1: HalfedgeId,
        v0: VertexId,
        v1: VertexId,
        fh: Option<FaceId>,
        fo: Option<FaceId>,
    ) -> Edit {
        let a = self.set_next(h1, ok_of(self.g.he_next(o0)));
        if a.err is Some {
            a
        } else {
            match a.g.he_prev(o0) {
                Err(e) => a.fail(e),
                Ok(o0_prev) => {
                    let b = a.set_next(o0_prev, Some(h1)).set_face(h1, fo).set_vertex_halfedge(
                        v0,
                        Some(h1),
                    ).adjust_outgoing_halfedge(v0).set_vertex_halfedge(
                        v1,
                        Some(o1),
                    ).adjust_outgoing_halfedge(v1);
                    if b.err is Some {
                        b
                    } else {
                        (match fo {
                            None => b,
                            Some(fo) => match b.g.face_halfedge(fo) {
                                Err(e) => b.fail(e),
                                Ok(stored) => if stored == o0 {
                                    b.set_face_halfedge(fo, Some(h1))
                                } else {
                                    b
                                },
                            },
                        }).drop_face_of(fh).drop_edge(h0)
                    }
                },
            }
        }
    }

    /// `remove_loop_helper(h)` where two steps of `next` from `h` lead back
    /// to `h`.
    pub open spec fn remove_loop_at(self, h: HalfedgeId) -> Edit {
        if self.err is Some {
            self
        } else if self.g.next_next(h) == Ok::<HalfedgeId, SMeshError>(h) {
            self.remove_loop_helper(h)
        } else {
            self
        }
    }

    /// Collapses the halfedge `h` of a triangle mesh: its source vertex is
    /// moved into its target, and the triangles on both sides, which have
    /// become loops of two halfedges, are removed.
    pub open spec fn collapse(self, h: HalfedgeId) -> Edit {
        if self.err is Some {
            self
        } else {
            match self.g.he_prev(h) {
                Err(e) => self.fail(e),
                Ok(h1) => match self.g.cw(h) {
                    Err(e) => self.fail(e),
                    Ok(o1) => self.remove_edge_helper(h).remove_loop_at(h1).remove_loop_at(o1),
                },
            }
        }
    }
}

impl Connectivity {
    fn all_faces_have(&self, corners: usize) -> (r: bool)
        ensures
            r == (forall|f: FaceId|
                self@.faces.contains_key(f) ==> #[trigger] self@.face_valence(f) == corners),
    {
        let ids = self.face_ids();
        let mut i: usize = 0;
        while i < ids.len()
            invariant
                0 <= i <= ids@.len(),
                forall|k: int|
                    0 <= k < i ==> self@.face_valence(#[trigger] ids@[k]) == corners,
                forall|id: FaceId| self@.faces.contains_key(id) ==> ids@.contains(id),
                forall|id: FaceId| ids@.contains(id) ==> self@.faces.contains_key(id),
            decreases ids@.len() - i,
        {
            if self.face_vertices(ids[i]).len() != corners {
                proof {
                    assert(ids@.contains(ids@[i as int]));
                    assert(self@.faces.contains_key(ids@[i as int]));
                    assert(self@.face_valence(ids@[i as int]) != corners);
                }
                return false;
            }
            i += 1;
        }
        proof {
            assert forall|f: FaceId| self@.faces.contains_key(f) implies #[trigger]
                self@.face_valence(f) == corners by {
                assert(ids@.contains(f));
            }
        }
        true
    }

    /// Whether every face is a triangle. Every face is looked at.
    pub fn is_triangle_mesh(&self) -> (r: bool)
        ensures
            r == self@.is_triangle_mesh(),
    {
        self.all_faces_have(3)
    }

    /// Whether every face is a quad. Every face is looked at.
    pub fn is_quad_mesh(&self) -> (r: bool)
        ensures
            r == self@.is_quad_mesh(),
    {
        self.all_faces_have(4)
    }

    fn set_next_of(&mut self, h: Option<HalfedgeId>, next: Option<HalfedgeId>) -> (r: SMeshResult<()>)
        ensures
            Edit::after(final(self)@, r) == Edit::of(old(self)@).set_next_of(h, next),
            final(self).room() == old(self).room(),
    {
        match h {
            Some(h) => self.set_next(h, next),
            None => Ok(()),
        }
    }

    fn set_halfedge_of(&mut self, f: Option<FaceId>, h: Option<HalfedgeId>) -> (r: SMeshResult<()>)
        ensures
            Edit::after(final(self)@, r) == Edit::of(old(self)@).set_halfedge_of(f, h),
            final(self).room() == old(self).room(),
    {
        match f {
            Some(f) => self.set_face_halfedge(f, h),
            None => Ok(()),
        }
    }

    fn drop_face_of(&mut self, f: Option<FaceId>)
        ensures
            Edit::of(final(self)@) == Edit::of(old(self)@).drop_face_of(f),
            final(self).room() == old(self).room(),
    {
        match f {
            Some(f) => self.drop_face(f),
            None => {},
        }
    }

    fn retarget(&mut self, hs: &Vec<HalfedgeId>, v: VertexId) -> (r: SMeshResult<()>)
        ensures
            Edit::after(final(self)@, r) == Edit::of(old(self)@).retarget(hs@, v, 0),
            final(self).room() == old(self).room(),
    {
        let mut i: usize = 0;
        while i < hs.len()
            invariant
                0 <= i <= hs@.len(),
                Edit::of(old(self)@).retarget(hs@, v, 0) == Edit::of(self@).retarget(hs@, v, i as int),
                self.room() == old(self).room(),
            decreases hs@.len() - i,
        {
            self.set_vertex(hs[i], v)?;
            i += 1;
        }
        Ok(())
    }

    fn reface(&mut self, hs: &Vec<HalfedgeId>, f: Option<FaceId>) -> (r: SMeshResult<()>)
        ensures
            Edit::after(final(self)@, r) == Edit::of(old(self)@).reface(hs@, f, 0),
            final(self).room() == old(self).room(),
    {
        let mut i: usize = 0;
        while i < hs.len()
            invariant
                0 <= i <= hs@.len(),
                Edit::of(old(self)@).reface(hs@, f, 0) == Edit::of(self@).reface(hs@, f, i as int),
                self.room() == old(self).room(),
            decreases hs@.len() - i,
        {
            self.set_face(hs[i], f)?;
            i += 1;
        }
        Ok(())
    }

    fn split_links(
        &mut self,
        h0: HalfedgeId,
        v: VertexId,
        o0: HalfedgeId,
        v2: VertexId,
        h1: HalfedgeId,
        o1: HalfedgeId,
        h2: Option<HalfedgeId>,
        o2: Option<HalfedgeId>,
        fh: Option<FaceId>,
        fo: Option<FaceId>,
    ) -> (r: SMeshResult<()>)
        ensures
            Edit::after(final(self)@, r) == Edit::of(old(self)@).set_next(h1, h2).set_vertex(
                h1,
                v2,
            ).set_face(h1, fh).set_next(h0, Some(h1)).set_vertex(h0, v).set_next(
                o1,
                Some(o0),
            ).set_vertex(o1, v).set_face(o1, fo).set_next_of(o2, Some(o1)).set_vertex_halfedge(
                v2,
                Some(o1),
            ).adjust_outgoing_halfedge(v2).set_vertex_halfedge(
                v,
                Some(h1),
            ).adjust_outgoing_halfedge(v).set_halfedge_of(fh, Some(h0)).set_halfedge_of(
                fo,
                Some(o1),
            ),
            final(self).room() == old(self).room(),
    {
        self.set_next(h1, h2)?;
        self.set_vertex(h1, v2)?;
        self.set_face(h1, fh)?;
        self.set_next(h0, Some(h1))?;
        self.set_vertex(h0, v)?;
        self.set_next(o1, Some(o0))?;
        self.set_vertex(o1, v)?;
        self.set_face(o1, fo)?;
        self.set_next_of(o2, Some(o1))?;
        self.set_vertex_halfedge(v2, Some(o1))?;
        self.adjust_outgoing_halfedge(v2)?;
        self.set_vertex_halfedge(v, Some(h1))?;
        self.adjust_outgoing_halfedge(v)?;
        self.set_halfedge_of(fh, Some(h0))?;
        self.set_halfedge_of(fo, Some(o1))?;
        Ok(())
    }

    /// Splits the edge of `h0` in two by putting the vertex `v` between its
    /// ends. No other edge and no face is added: a face beside the edge has
    /// one corner more afterwards. Gives the new halfedge that runs to `v`
    /// on the opposite side.
    pub fn insert_vertex(&mut self, h0: HalfedgeId, v: VertexId) -> (r: SMeshResult<HalfedgeId>)
        requires
            old(self).room().halfedges >= 2,
        ensures
            old(self)@.paired() ==> final(self)@.paired(),
            old(self)@.inserted_vertex(h0, v, final(self)@, r),
            final(self).room().within(old(self).room(), 0, 2, 0),
            old(self)@.in_order() && old(self)@.can_split(h0, v) && r is Ok ==> final(self)@.in_order(),
    {
        let h2 = self.he_next(h0).ok();
        let o0 = self.he_opposite(h0)?;
        let o2 = self.he_prev(o0).ok();
        let v2 = self.he_vertex(h0)?;
        let fh = self.he_face(h0).ok();
        let fo = self.he_face(o0).ok();
        let hs = self.add_edge(v, v2);
        let linked = self.split_links(h0, v, o0, v2, hs.0, hs.1, h2, o2, fh, fo);
        let r = match linked {
            Ok(()) => Ok(hs.1),
            Err(e) => Err(e),
        };
        proof {
            assert(Edit::after(self@, r) == old(self)@.split_edge(h0, v, o0, v2, hs.0, hs.1));
            assert(old(self)@.edge_split(h0, v, o0, v2, self@, r));
            if old(self)@.paired() {
                old(self)@.law_insert_vertex_keeps_pairs(h0, v, self@, r);
            }
            if old(self)@.in_order() && old(self)@.can_split(h0, v) && r is Ok {
                old(self)@.law_insert_vertex_keeps_order(h0, v, self@, r);
            }
        }
        r
    }

    fn opposites_of(&self, hs: &Vec<HalfedgeId>) -> (r: Vec<HalfedgeId>)
        ensures
            r@ == self@.opposites_of(hs@, 0, Seq::empty()),
    {
        let mut acc: Vec<HalfedgeId> = Vec::new();
        let mut i: usize = 0;
        while i < hs.len()
            invariant
                0 <= i <= hs@.len(),
                self@.opposites_of(hs@, 0, Seq::empty()) == self@.opposites_of(hs@, i as int, acc@),
            decreases hs@.len() - i,
        {
            if let Ok(o) = self.he_opposite(hs[i]) {
                acc.push(o);
            }
            i += 1;
        }
        acc
    }

    fn next_next(&self, h: HalfedgeId) -> (r: SMeshResult<HalfedgeId>)
        ensures
            r == self@.next_next(h),
    {
        let n = self.he_next(h)?;
        self.he_next(n)
    }

    fn opposite_prev(&self, h: HalfedgeId) -> (r: SMeshResult<HalfedgeId>)
        ensures
            r == self@.opposite_prev(h),
    {
        let o = self.he_opposite(h)?;
        self.he_prev(o)
    }

    fn opposite_face(&self, h: HalfedgeId) -> (r: SMeshResult<FaceId>)
        ensures
            r == self@.opposite_face(h),
    {
        let o = self.he_opposite(h)?;
        self.he_face(o)
    }

    fn collapse_apex(&self, h: HalfedgeId) -> (r: SMeshResult<Option<VertexId>>)
        ensures
            r == self@.collapse_apex(h),
    {
        if self.he_is_boundary(h) {
            return Ok(None);
        }
        let h1 = self.he_next(h)?;
        let h2 = self.he_next(h1)?;
        if self.opposite_is_boundary(h1) && self.opposite_is_boundary(h2) {
            return Err(SMeshError::TopologyError);
        }
        Ok(self.he_vertex(h1).ok())
    }

    fn rings_meet(&self, ring: &Vec<VertexId>, v1: VertexId, vl: Option<VertexId>, vr: Option<VertexId>) -> (r:
        bool)
        ensures
            r == self@.rings_meet(ring@, v1, vl, vr, 0),
    {
        let mut i: usize = 0;
        while i < ring.len()
            invariant
                0 <= i <= ring@.len(),
                self@.rings_meet(ring@, v1, vl, vr, 0) == self@.rings_meet(ring@, v1, vl, vr, i as int),
            decreases ring@.len() - i,
        {
            let vv = ring[i];
            let is_left = match vl {
                Some(x) => x == vv,
                None => false,
            };
            let is_right = match vr {
                Some(x) => x == vv,
                None => false,
            };
            if vv != v1 && !is_left && !is_right && self.halfedge_to(vv, v1).is_ok() {
                return true;
            }
            i += 1;
        }
        false
    }

    /// Whether collapsing the halfedge `v0v1` is legal. It is for triangle
    /// meshes only. A third vertex next to both ends, other than the apexes
    /// of the two triangles beside the edge, forbids the collapse; so does a
    /// triangle beside the edge whose other two edges are on the boundary,
    /// and an inner edge between two boundary vertices.
    pub fn is_collapse_ok(&self, v0v1: HalfedgeId) -> (r: SMeshResult<()>)
        ensures
            r == self@.is_collapse_ok(v0v1),
    {
        let v1v0 = self.he_opposite(v0v1)?;
        let v0 = self.he_vertex(v1v0)?;
        let v1 = self.he_vertex(v0v1)?;
        let vl = self.collapse_apex(v0v1)?;
        let vr = self.collapse_apex(v1v0)?;
        if vl.is_none() && vr.is_none() {
            return Err(SMeshError::TopologyError);
        }
        if self.vertex_is_boundary(v0) && self.vertex_is_boundary(v1) && !self.he_is_boundary(v0v1)
            && !self.he_is_boundary(v1v0) {
            return Err(SMeshError::TopologyError);
        }
        let ring = self.vertex_vertices(v0);
        if self.rings_meet(&ring, v1, vl, vr) {
            return Err(SMeshError::TopologyError);
        }
        Ok(())
    }

    fn corner_touches(&self, corners: &Vec<VertexId>, v0: VertexId, v1: VertexId, f: FaceId) -> (r:
        bool)
        ensures
            r == self@.corner_touches(corners@, v0, v1, f, 0),
    {
        let mut i: usize = 0;
        while i < corners.len()
            invariant
                0 <= i <= corners@.len(),
                self@.corner_touches(corners@, v0, v1, f, 0) == self@.corner_touches(
                    corners@,
                    v0,
                    v1,
                    f,
                    i as int,
                ),
            decreases corners@.len() - i,
        {
            let v = corners[i];
            if v != v0 && v != v1 {
                let around = self.vertex_faces(v);
                if crate::selection::has_face(&around, f) {
                    return true;
                }
            }
            i += 1;
        }
        false
    }

    /// Whether removing the edge of `h0` and merging its two faces is legal:
    /// both sides must have a face, the two must differ, and they must not
    /// meet at a vertex other than the ends of the edge.
    pub fn is_removal_ok(&self, h0: HalfedgeId) -> (r: SMeshResult<()>)
        ensures
            r == self@.is_removal_ok(h0),
    {
        let h1 = self.he_opposite(h0)?;
        let v0 = self.he_vertex(h0)?;
        let v1 = self.he_vertex(h1)?;
        let f0 = self.he_face(h0)?;
        let f1 = self.he_face(h1)?;
        if f0 == f1 {
            return Err(SMeshError::TopologyError);
        }
        let corners = self.face_vertices(f0);
        if self.corner_touches(&corners, v0, v1, f1) {
            return Err(SMeshError::TopologyError);
        }
        Ok(())
    }

    #[verifier::rlimit(40)]
    fn merge_faces(&mut self, h0: HalfedgeId, h1: HalfedgeId, v0: VertexId, v1: VertexId) -> (r:
        SMeshResult<()>)
        ensures
            Edit::after(final(self)@, r) == old(self)@.merge_faces(h0, h1, v0, v1),
            final(self).room() == old(self).room(),
    {
        let f0 = self.he_face(h0).ok();
        let f1 = self.he_face(h1).ok();
        let h0_prev = self.he_prev(h0).ok();
        let h0_next = self.he_next(h0).ok();
        let h1_prev = self.he_prev(h1).ok();
        let h1_next = self.he_next(h1).ok();
        if let Ok(stored) = self.vertex_halfedge(v0) {
            if stored == h1 {
                self.set_vertex_halfedge(v0, h0_next)?;
            }
        }
        if let Ok(stored) = self.vertex_halfedge(v1) {
            if stored == h0 {
                self.set_vertex_halfedge(v1, h1_next)?;
            }
        }
        if let Some(f0) = f0 {
            let ring = self.face_halfedges(f0);
            self.reface(&ring, f1)?;
        }
        self.set_next_of(h1_prev, h0_next)?;
        self.set_next_of(h0_prev, h1_next)?;
        if let Some(f1) = f1 {
            if let Ok(stored) = self.face_halfedge(f1) {
                if stored == h1 {
                    self.set_face_halfedge(f1, h1_next)?;
                }
            }
        }
        self.drop_face_of(f0);
        self.drop_edge(h0);
        Ok(())
    }

    /// Removes the edge of `h0` and merges the two faces beside it into one.
    /// Nothing is changed where `is_removal_ok` says that this is not legal.
    pub fn remove_edge(&mut self, h0: HalfedgeId) -> (r: SMeshResult<()>)
        ensures
            old(self)@.paired() ==> final(self)@.paired(),
            Edit::after(final(self)@, r) == old(self)@.remove_edge(h0),
            final(self).room() == old(self).room(),
    {
        proof {
            if self@.paired() {
                crate::pairs::law_collapse_and_removal_keep_pairs(self@, h0);
            }
        }
        self.is_removal_ok(h0)?;
        let h1 = self.he_opposite(h0)?;
        let v0 = self.he_vertex(h0)?;
        let v1 = self.he_vertex(h1)?;
        self.merge_faces(h0, h1, v0, v1)
    }

    fn collapse_site(&self, h: HalfedgeId) -> (r: SMeshResult<
        (
            HalfedgeId,
            HalfedgeId,
            HalfedgeId,
            HalfedgeId,
            Option<FaceId>,
            Option<FaceId>,
            VertexId,
            VertexId,
        ),
    >)
        ensures
            match r {
                Ok(s) => match self@.collapse_site(h) {
                    Ok(site) => site.hn == s.0 && site.hp == s.1 && site.on == s.2 && site.op == s.3
                        && site.fh == s.4 && site.fo == s.5 && site.vh == s.6 && site.vo == s.7,
                    Err(_) => false,
                },
                Err(e) => self@.collapse_site(h) == Err::<CollapseSite, SMeshError>(e),
            },
    {
        let hn = self.he_next(h)?;
        let hp = self.he_prev(h)?;
        let on = self.cw(h)?;
        let op = self.opposite_prev(h)?;
        let fh = self.he_face(h).ok();
        let fo = self.opposite_face(h).ok();
        let vh = self.he_vertex(h)?;
        let vo = self.src_vertex(h)?;
        Ok((hn, hp, on, op, fh, fo, vh, vo))
    }

    fn remove_edge_helper(&mut self, h: HalfedgeId) -> (r: SMeshResult<()>)
        ensures
            Edit::after(final(self)@, r) == Edit::of(old(self)@).remove_edge_helper(h),
            final(self).room() == old(self).room(),
    {
        let s = self.collapse_site(h)?;
        let around = self.vertex_halfedges(s.7);
        let inbound = self.opposites_of(&around);
        self.retarget(&inbound, s.6)?;
        self.set_next(s.1, Some(s.0))?;
        self.set_next(s.3, Some(s.2))?;
        self.set_halfedge_of(s.4, Some(s.0))?;
        self.set_halfedge_of(s.5, Some(s.2))?;
        let stored = self.vertex_halfedge(s.6)?;
        let o = self.he_opposite(h)?;
        if stored == o {
            self.set_vertex_halfedge(s.6, Some(s.0))?;
        }
        self.adjust_outgoing_halfedge(s.6)?;
        self.set_vertex_halfedge(s.7, None)?;
        self.drop_vertex(s.7);
        self.drop_edge(h);
        Ok(())
    }

    fn close_loop(
        &mut self,
        h0: HalfedgeId,
        h1: HalfedgeId,
        o0: HalfedgeId,
        o1: HalfedgeId,
        v0: VertexId,
        v1: VertexId,
        fh: Option<FaceId>,
        fo: Option<FaceId>,
    ) -> (r: SMeshResult<()>)
        ensures
            Edit::after(final(self)@, r) == Edit::of(old(self)@).close_loop(
                h0,
                h1,
                o0,
                o1,
                v0,
                v1,
                fh,
                fo,
            ),
            final(self).room() == old(self).room(),
    {
        let o0_next = self.he_next(o0).ok();
        self.set_next(h1, o0_next)?;
        let o0_prev = self.he_prev(o0)?;
        self.set_next(o0_prev, Some(h1))?;
        self.set_face(h1, fo)?;
        self.set_vertex_halfedge(v0, Some(h1))?;
        self.adjust_outgoing_halfedge(v0)?;
        self.set_vertex_halfedge(v1, Some(o1))?;
        self.adjust_outgoing_halfedge(v1)?;
        if let Some(fo) = fo {
            let stored = self.face_halfedge(fo)?;
            if stored == o0 {
                self.set_face_halfedge(fo, Some(h1))?;
            }
        }
        self.drop_face_of(fh);
        self.drop_edge(h0);
        Ok(())
    }

    fn remove_loop_helper(&mut self, h0: HalfedgeId) -> (r: SMeshResult<()>)
        ensures
            Edit::after(final(self)@, r) == Edit::of(old(self)@).remove_loop_helper(h0),
            final(self).room() == old(self).room(),
    {
        let h1 = self.he_next(h0)?;
        let o0 = self.he_opposite(h0)?;
        let o1 = self.he_opposite(h1)?;
        let v0 = self.he_vertex(h0)?;
        let v1 = self.he_vertex(h1)?;
        let fh = self.he_face(h0).ok();
        let fo = self.he_face(o0).ok();
        let back = self.he_next(h1)?;
        if !(back == h0 && h1 != o0) {
            return Err(SMeshError::TopologyError);
        }
        self.close_loop(h0, h1, o0, o1, v0, v1, fh, fo)
    }

    fn remove_loop_at(&mut self, h: HalfedgeId) -> (r: SMeshResult<()>)
        ensures
            Edit::after(final(self)@, r) == Edit::of(old(self)@).remove_loop_at(h),
            final(self).room() == old(self).room(),
    {
        if let Ok(back) = self.next_next(h) {
            if back == h {
                return self.remove_loop_helper(h);
            }
        }
        Ok(())
    }

    /// Collapses the halfedge `h` by moving its source vertex into its
    /// target. It is for triangle meshes only, and may leave faces that are
    /// not valid where `is_collapse_ok` does not hold of `h`.
    pub fn collapse(&mut self, h: HalfedgeId) -> (r: SMeshResult<()>)
        ensures
            old(self)@.paired() ==> final(self)@.paired(),
            Edit::after(final(self)@, r) == Edit::of(old(self)@).collapse(h),
            final(self).room() == old(self).room(),
    {
        proof {
            if self@.paired() {
                crate::pairs::law_collapse_and_removal_keep_pairs(self@, h);
            }
        }
        let h1 = self.he_prev(h)?;
        let o1 = self.cw(h)?;
        self.remove_edge_helper(h)?;
        self.remove_loop_at(h1)?;
        self.remove_loop_at(o1)?;
        Ok(())
    }
}

impl SMesh {
    /// Whether every face is a triangle. Every face is looked at.
    pub fn is_triangle_mesh(&self) -> (r: bool)
        ensures
            r == self.graph().is_triangle_mesh(),
    {
        self.connectivity.is_triangle_mesh()
    }

    /// Whether every face is a quad. Every face is looked at.
    pub fn is_quad_mesh(&self) -> (r: bool)
        ensures
            r == self.graph().is_quad_mesh(),
    {
        self.connectivity.is_quad_mesh()
    }

    /// Splits the edge of `h0` in two by putting the vertex `v` between its
    /// ends. No other edge and no face is added: a face beside the edge has
    /// one corner more afterwards. Gives the new halfedge that runs to `v`
    /// on the opposite side.
    pub fn insert_vertex(&mut self, h0: HalfedgeId, v: VertexId) -> (r: SMeshResult<HalfedgeId>)
        requires
            old(self).room().halfedges >= 2,
        ensures
            old(self).graph().paired() ==> final(self).graph().paired(),
            old(self).graph().inserted_vertex(h0, v, final(self).graph(), r),
            final(self).attributes() == old(self).attributes(),
            final(self).room().within(old(self).room(), 0, 2, 0),
            old(self).graph().in_order() && old(self).graph().can_split(h0, v) && r is Ok
                ==> final(self).graph().in_order(),
    {
        self.connectivity.insert_vertex(h0, v)
    }

    /// Whether collapsing the halfedge `v0v1` is legal. It is for triangle
    /// meshes only.
    pub fn is_collapse_ok(&self, v0v1: HalfedgeId) -> (r: SMeshResult<()>)
        ensures
            r == self.graph().is_collapse_ok(v0v1),
    {
        self.connectivity.is_collapse_ok(v0v1)
    }

    /// Collapses the halfedge `h` by moving its source vertex into its
    /// target. It is for triangle meshes only, and may leave faces that are
    /// not valid where `is_collapse_ok` does not hold of `h`.
    pub fn collapse(&mut self, h: HalfedgeId) -> (r: SMeshResult<()>)
        ensures
            old(self).graph().paired() ==> final(self).graph().paired(),
            Edit::after(final(self).graph(), r) == Edit::of(old(self).graph()).collapse(h),
            final(self).attributes() == old(self).attributes(),
            final(self).room() == old(self).room(),
    {
        self.connectivity.collapse(h)
    }

    /// Whether removing the edge of `h0` and merging its two faces is legal.
    pub fn is_removal_ok(&self, h0: HalfedgeId) -> (r: SMeshResult<()>)
        ensures
            r == self.graph().is_removal_ok(h0),
    {
        self.connectivity.is_removal_ok(h0)
    }

    /// Removes the edge of `h0` and merges the two faces beside it into one.
    /// Nothing is changed where `is_removal_ok` says that this is not legal.
    pub fn remove_edge(&mut self, h0: HalfedgeId) -> (r: SMeshResult<()>)
        ensures
            old(self).graph().paired() ==> final(self).graph().paired(),
            Edit::after(final(self).graph(), r) == old(self).graph().remove_edge(h0),
            final(self).attributes() == old(self).attributes(),
            final(self).room() == old(self).room(),
    {
        self.connectivity.remove_edge(h0)
    }
}

} // verus!
