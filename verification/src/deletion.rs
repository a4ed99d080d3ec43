use vstd::prelude::*;
use crate::connectivity::Connectivity;
use crate::edit::Edit;
use crate::error::{SMeshError, SMeshResult};
use crate::graph::Graph;
use crate::mesh::SMesh;
use crate::mesh_elements::{FaceId, HalfedgeId, VertexId};
use crate::selection::seq_add;

verus! {

impl Graph {
    /// Whether no face can be read from the opposite of a halfedge.
    pub open spec fn opposite_is_boundary(self, h: HalfedgeId) -> bool {
        match self.he_opposite(h) {
            Ok(o) => self.he_is_boundary(o),
            Err(_) => true,
        }
    }

    /// Those of the halfedges from the `i`-th on whose opposite is on the
    /// boundary, after `acc`.
    pub open spec fn lone_edges(self, hs: Seq<HalfedgeId>, i: int, acc: Seq<HalfedgeId>) -> Seq<
        HalfedgeId,
    >
        decreases hs.len() - i,
    {
        if i < 0 || i >= hs.len() {
            acc
        } else {
            self.lone_edges(
                hs,
                i + 1,
                if self.opposite_is_boundary(hs[i]) {
                    acc.push(hs[i])
                } else {
                    acc
                },
            )
        }
    }

    /// The first error among the reads of the vertices that the halfedges
    /// from the `i`-th on point to.
    pub open spec fn corners_readable(self, hs: Seq<HalfedgeId>, i: int) -> SMeshResult<()>
        decreases hs.len() - i,
    {
        if i < 0 || i >= hs.len() {
            Ok(())
        } else {
            match self.he_vertex(hs[i]) {
                Err(e) => Err(e),
                Ok(_) => self.corners_readable(hs, i + 1),
            }
        }
    }
}

impl Edit {
    /// Takes the face off each halfedge from the `i`-th on.
    pub open spec fn clear_faces(self, hs: Seq<HalfedgeId>, i: int) -> Edit
        decreases hs.len() - i,
    {
        if i < 0 || i >= hs.len() {
            self
        } else {
            let cleared = self.set_face(hs[i], None);
            if cleared.err is Some {
                cleared
            } else {
                cleared.clear_faces(hs, i + 1)
            }
        }
    }

    /// Removes a face and takes it off the halfedges of its loop. Vertices
    /// and edges stay. A face that is not live is an error, and nothing is
    /// changed.
    pub open spec fn delete_only_face(self, f: FaceId) -> Edit {
        if self.err is Some {
            self
        } else if !self.g.faces.contains_key(f) {
            self.fail(SMeshError::FaceNotFound(f))
        } else {
            self.clear_faces(self.g.face_halfedges(f), 0).drop_face(f)
        }
    }

    /// The adjustment of an outgoing halfedge where a failure is passed
    /// over: the edit goes on as if nothing had been tried.
    pub open spec fn try_adjust(self, v: VertexId) -> Edit {
        if self.err is Some {
            self
        } else {
            let adjusted = self.adjust_outgoing_halfedge(v);
            if adjusted.err is Some {
                self
            } else {
                adjusted
            }
        }
    }

    /// `try_adjust` for each vertex from the `k`-th on.
    pub open spec fn try_adjust_all(self, vs: Seq<VertexId>, k: int) -> Edit
        decreases vs.len() - k,
    {
        if k < 0 || k >= vs.len() || self.err is Some {
            self
        } else {
            self.try_adjust(vs[k]).try_adjust_all(vs, k + 1)
        }
    }

    /// After the edge of `gone` was removed: if the vertex `v` stored
    /// `gone`, it is removed where `next` is `gone` too, which means that
    /// nothing else leaves it, and stores `next` otherwise.
    pub open spec fn release_vertex(self, v: VertexId, gone: HalfedgeId, next: HalfedgeId) -> Edit {
        if self.err is Some {
            self
        } else {
            match self.g.vertex_halfedge(v) {
                Err(e) => self.fail(e),
                Ok(h) => if h == gone {
                    if next == gone {
                        self.drop_vertex(v)
                    } else {
                        self.set_vertex_halfedge(v, Some(next))
                    }
                } else {
                    self
                },
            }
        }
    }

    /// Removes the edge of the boundary halfedge `h0` together with the
    /// vertices that nothing else leaves: the neighbours on both sides are
    /// linked past the edge.
    pub open spec fn unlink_edge(self, h0: HalfedgeId) -> Edit {
        if self.err is Some {
            self
        } else {
            let g = self.g;
            match g.he_vertex(h0) {
                Err(e) => self.fail(e),
                Ok(v0) => match g.he_next(h0) {
                    Err(e) => self.fail(e),
                    Ok(next0) => match g.he_prev(h0) {
                        Err(e) => self.fail(e),
                        Ok(prev0) => match g.he_opposite(h0) {
                            Err(e) => self.fail(e),
                            Ok(h1) => match g.he_vertex(h1) {
                                Err(e) => self.fail(e),
                                Ok(v1) => match g.he_next(h1) {
                                    Err(e) => self.fail(e),
                                    Ok(next1) => match g.he_prev(h1) {
                                        Err(e) => self.fail(e),
                                        Ok(prev1) => self.set_next(prev0, Some(next1)).set_next(
                                            prev1,
                                            Some(next0),
                                        ).drop_edge(h0).release_vertex(v0, h1, next0).release_vertex(
                                            v1,
                                            h0,
                                            next1,
                                        ),
                                    },
                                },
                            },
                        },
                    },
                },
            }
        }
    }

    /// `unlink_edge` for each halfedge from the `k`-th on.
    pub open spec fn unlink_edges(self, hs: Seq<HalfedgeId>, k: int) -> Edit
        decreases hs.len() - k,
    {
        if k < 0 || k >= hs.len() {
            self
        } else {
            let unlinked = self.unlink_edge(hs[k]);
            if unlinked.err is Some {
                unlinked
            } else {
                unlinked.unlink_edges(hs, k + 1)
            }
        }
    }

    /// Removes a face, the edges that then border no face, and the vertices
    /// that then have no edge. A face that is not live is an error, and
    /// nothing is changed.
    pub open spec fn delete_face(self, f: FaceId) -> Edit {
        if self.err is Some {
            self
        } else if !self.g.faces.contains_key(f) {
            self.fail(SMeshError::FaceNotFound(f))
        } else {
            let ring = self.g.face_halfedges(f);
            self.check(self.g.corners_readable(ring, 0)).clear_faces(ring, 0).drop_face(
                f,
            ).unlink_edges(self.g.lone_edges(ring, 0, Seq::empty()), 0).try_adjust_all(
                self.g.targets(ring),
                0,
            )
        }
    }

    /// `delete_face` for each face from the `k`-th on.
    pub open spec fn delete_faces(self, fs: Seq<FaceId>, k: int) -> Edit
        decreases fs.len() - k,
    {
        if k < 0 || k >= fs.len() {
            self
        } else {
            let deleted = self.delete_face(fs[k]);
            if deleted.err is Some {
                deleted
            } else {
                deleted.delete_faces(fs, k + 1)
            }
        }
    }

    /// Removes a vertex after the faces around it.
    pub open spec fn delete_vertex(self, v: VertexId) -> Edit {
        if self.err is Some {
            self
        } else {
            self.delete_faces(self.g.vertex_faces(v), 0).drop_vertex(v)
        }
    }

    /// Removes the face of a halfedge, if it has one.
    pub open spec fn delete_face_of(self, h: SMeshResult<HalfedgeId>) -> Edit {
        if self.err is Some {
            self
        } else {
            match h {
                Err(_) => self,
                Ok(h) => match self.g.he_face(h) {
                    Ok(f) => self.delete_face(f),
                    Err(_) => self,
                },
            }
        }
    }

    /// Removes an edge after the faces on both of its sides.
    pub open spec fn delete_edge(self, h: HalfedgeId) -> Edit {
        if self.err is Some {
            self
        } else {
            let first = self.delete_face_of(Ok(h));
            first.delete_face_of(first.g.he_opposite(h)).drop_edge(h)
        }
    }

    /// Makes each halfedge from the `k`-th on lead into the outgoing
    /// halfedge that its target vertex stores, or into nothing where none
    /// can be read. A halfedge that cannot be written is passed over.
    pub open spec fn rethread(self, hs: Seq<HalfedgeId>, k: int) -> Edit
        decreases hs.len() - k,
    {
        if k < 0 || k >= hs.len() || self.err is Some {
            self
        } else {
            let next = match self.g.he_vertex(hs[k]) {
                Ok(v) => match self.g.vertex_halfedge(v) {
                    Ok(h) => Some(h),
                    Err(_) => None,
                },
                Err(_) => None,
            };
            Edit::of(self.set_next(hs[k], next).g).rethread(hs, k + 1)
        }
    }

    /// Removes the face on the side of `h` as `delete_only_face` does, if
    /// there is one; a failure on the way is passed over.
    pub open spec fn try_delete_only_face_of(self, h: HalfedgeId) -> Edit {
        if self.err is Some {
            self
        } else {
            match self.g.he_face(h) {
                Ok(f) => Edit::of(self.delete_only_face(f).g),
                Err(_) => self,
            }
        }
    }

    /// Removes only an edge: the faces on its sides go, as `delete_only_face`
    /// removes them, and every vertex stays. The outgoing halfedges of its
    /// two ends are adjusted, and the halfedges that led into it are made to
    /// lead into the outgoing halfedge of their target.
    pub open spec fn delete_only_edge(self, e: HalfedgeId) -> Edit {
        if self.err is Some || !self.g.halfedges.contains_key(e) {
            self
        } else {
            let a = self.try_delete_only_face_of(e);
            match a.g.src_vertex(e) {
                Err(err) => a.fail(err),
                Ok(src) => {
                    let hs0: Seq<HalfedgeId> = match a.g.he_prev(e) {
                        Ok(p) => seq![p],
                        Err(_) => Seq::empty(),
                    };
                    match a.g.he_opposite(e) {
                        Err(_) => a.drop_edge(e).adjust_all(seq![src], 0).rethread(hs0, 0),
                        Ok(o) => {
                            let b = match a.g.he_face(o) {
                                Ok(f) => a.delete_only_face(f),
                                Err(_) => a,
                            };
                            let hs1 = match b.g.he_prev(o) {
                                Ok(p) => seq_add(hs0, p),
                                Err(_) => hs0,
                            };
                            match b.g.src_vertex(o) {
                                Err(err) => b.fail(err),
                                Ok(dst) => b.drop_edge(e).adjust_all(
                                    seq_add(seq![src], dst),
                                    0,
                                ).rethread(hs1, 0),
                            }
                        },
                    }
                },
            }
        }
    }
}

/// Taking the face off halfedges leaves the faces as they are.
pub proof fn lemma_clear_faces_keeps_faces(e: Edit, hs: Seq<HalfedgeId>, i: int)
    ensures
        e.clear_faces(hs, i).g.faces == e.g.faces,
    decreases hs.len() - i,
{
    if 0 <= i < hs.len() {
        let cleared = e.set_face(hs[i], None);
        if cleared.err is None {
            lemma_clear_faces_keeps_faces(cleared, hs, i + 1);
        }
    }
}

/// Unlinking an edge leaves the faces as they are.
pub proof fn lemma_unlink_edge_keeps_faces(e: Edit, h0: HalfedgeId)
    ensures
        e.unlink_edge(h0).g.faces == e.g.faces,
{
    if e.err is None {
        let g = e.g;
        if g.he_vertex(h0) is Ok && g.he_next(h0) is Ok && g.he_prev(h0) is Ok && g.he_opposite(
            h0,
        ) is Ok {
            let h1 = g.he_opposite(h0)->Ok_0;
            if g.he_vertex(h1) is Ok && g.he_next(h1) is Ok && g.he_prev(h1) is Ok {
                let a = e.set_next(g.he_prev(h0)->Ok_0, Some(g.he_next(h1)->Ok_0));
                assert(a.g.faces == g.faces);
                let b = a.set_next(g.he_prev(h1)->Ok_0, Some(g.he_next(h0)->Ok_0));
                assert(b.g.faces == g.faces);
                let c = b.drop_edge(h0);
                assert(c.g.faces == g.faces);
                let d = c.release_vertex(g.he_vertex(h0)->Ok_0, h1, g.he_next(h0)->Ok_0);
                assert(d.g.faces == g.faces);
                assert(e.unlink_edge(h0) == d.release_vertex(
                    g.he_vertex(h1)->Ok_0,
                    h0,
                    g.he_next(h1)->Ok_0,
                ));
            }
        }
    }
}

/// Unlinking edges leaves the faces as they are.
pub proof fn lemma_unlink_edges_keep_faces(e: Edit, hs: Seq<HalfedgeId>, k: int)
    ensures
        e.unlink_edges(hs, k).g.faces == e.g.faces,
    decreases hs.len() - k,
{
    if 0 <= k < hs.len() {
        lemma_unlink_edge_keeps_faces(e, hs[k]);
        let unlinked = e.unlink_edge(hs[k]);
        if unlinked.err is None {
            lemma_unlink_edges_keep_faces(unlinked, hs, k + 1);
        }
    }
}

/// Adjusting outgoing halfedges where that succeeds leaves the faces as
/// they are.
pub proof fn lemma_try_adjust_all_keeps_faces(e: Edit, vs: Seq<VertexId>, k: int)
    ensures
        e.try_adjust_all(vs, k).g.faces == e.g.faces,
    decreases vs.len() - k,
{
    if 0 <= k < vs.len() && e.err is None {
        lemma_try_adjust_all_keeps_faces(e.try_adjust(vs[k]), vs, k + 1);
    }
}

/// The faces after a deletion. A deletion of a face that succeeds removes
/// that face and no other; one that fails because the face is not live
/// changes nothing.
pub proof fn lemma_deleted_face_is_gone(g: Graph, f: FaceId)
    ensures
        Edit::of(g).delete_face(f).err is None ==> g.faces.contains_key(f) && Edit::of(
            g,
        ).delete_face(f).g.faces == g.faces.remove(f),
        Edit::of(g).delete_only_face(f).err is None ==> g.faces.contains_key(f) && Edit::of(
            g,
        ).delete_only_face(f).g.faces == g.faces.remove(f),
        !g.faces.contains_key(f) ==> Edit::of(g).delete_face(f) == Edit::of(g).fail(
            SMeshError::FaceNotFound(f),
        ) && Edit::of(g).delete_only_face(f) == Edit::of(g).fail(SMeshError::FaceNotFound(f)),
{
    let e = Edit::of(g);
    if g.faces.contains_key(f) {
        let ring = g.face_halfedges(f);
        lemma_clear_faces_keeps_faces(e, ring, 0);
        let a = e.check(g.corners_readable(ring, 0));
        lemma_clear_faces_keeps_faces(a, ring, 0);
        let b = a.clear_faces(ring, 0).drop_face(f);
        let lone = g.lone_edges(ring, 0, Seq::empty());
        lemma_unlink_edges_keep_faces(b, lone, 0);
        lemma_try_adjust_all_keeps_faces(b.unlink_edges(lone, 0), g.targets(ring), 0);
    }
}

/// The faces after a run of deletions that succeeds: each of the faces from
/// the `k`-th on is gone, no other is, and those that stay keep their
/// record.
pub proof fn lemma_deleted_faces_are_gone(g: Graph, fs: Seq<FaceId>, k: int)
    requires
        0 <= k <= fs.len(),
        Edit::of(g).delete_faces(fs, k).err is None,
    ensures
        forall|x: FaceId|
            #[trigger] Edit::of(g).delete_faces(fs, k).g.faces.contains_key(x) <==> g.faces.contains_key(
                x,
            ) && !(exists|j: int| k <= j < fs.len() && fs[j] == x),
        forall|x: FaceId|
            Edit::of(g).delete_faces(fs, k).g.faces.contains_key(x) ==> #[trigger] Edit::of(
                g,
            ).delete_faces(fs, k).g.faces[x] == g.faces[x],
        forall|j: int| k <= j < fs.len() ==> g.faces.contains_key(#[trigger] fs[j]),
    decreases fs.len() - k,
{
    if k < fs.len() {
        let deleted = Edit::of(g).delete_face(fs[k]);
        lemma_deleted_face_is_gone(g, fs[k]);
        assert(deleted == Edit::of(deleted.g));
        lemma_deleted_faces_are_gone(deleted.g, fs, k + 1);
        let last = Edit::of(g).delete_faces(fs, k);
        assert(last == Edit::of(deleted.g).delete_faces(fs, k + 1));
        assert forall|x: FaceId| #[trigger]
            last.g.faces.contains_key(x) <==> g.faces.contains_key(x) && !(exists|j: int|
                k <= j < fs.len() && fs[j] == x) by {
            if last.g.faces.contains_key(x) {
                assert(deleted.g.faces.contains_key(x));
                assert(x != fs[k]);
                if exists|j: int| k <= j < fs.len() && fs[j] == x {
                    let j = choose|j: int| k <= j < fs.len() && fs[j] == x;
                    assert(k + 1 <= j < fs.len() && fs[j] == x);
                }
            }
            if g.faces.contains_key(x) && !(exists|j: int| k <= j < fs.len() && fs[j] == x) {
                assert(x != fs[k]);
                assert(deleted.g.faces.contains_key(x));
                if exists|j: int| k + 1 <= j < fs.len() && fs[j] == x {
                    let j = choose|j: int| k + 1 <= j < fs.len() && fs[j] == x;
                    assert(k <= j < fs.len() && fs[j] == x);
                }
            }
        }
        assert forall|j: int| k <= j < fs.len() implies g.faces.contains_key(#[trigger] fs[j]) by {
            if j > k {
                assert(deleted.g.faces.contains_key(fs[j]));
            }
        }
    }
}

impl Graph {
    /// What a deletion of the vertex `v` that has succeeded with the graph
    /// `after` has done to the vertex and to the faces: the vertex is gone,
    /// the faces around it were live and are gone, each once, and every
    /// other face is there with its record.
    pub open spec fn vertex_deleted(self, v: VertexId, after: Graph) -> bool {
        &&& !after.vertices.contains_key(v)
        &&& self.vertex_faces(v).no_duplicates()
        &&& forall|j: int|
            0 <= j < self.vertex_faces(v).len() ==> self.faces.contains_key(
                #[trigger] self.vertex_faces(v)[j],
            )
        &&& forall|x: FaceId|
            #[trigger] after.faces.contains_key(x) <==> self.faces.contains_key(x)
                && !self.vertex_faces(v).contains(x)
        &&& forall|x: FaceId|
            after.faces.contains_key(x) ==> #[trigger] after.faces[x] == self.faces[x]
    }

    /// Vertex deletion. Where the deletion of a vertex succeeds, the vertex
    /// is gone, exactly the faces around it are gone, and every other face
    /// keeps its identifier and its record.
    pub proof fn law_vertex_deletion(self, v: VertexId)
        requires
            Edit::of(self).delete_vertex(v).err is None,
        ensures
            self.vertex_deleted(v, Edit::of(self).delete_vertex(v).g),
    {
        let fs = self.vertex_faces(v);
        let e = Edit::of(self).delete_faces(fs, 0);
        lemma_deleted_faces_are_gone(self, fs, 0);
        let after = e.drop_vertex(v).g;
        assert(after.faces == e.g.faces);
        assert forall|x: FaceId| #[trigger]
            after.faces.contains_key(x) <==> self.faces.contains_key(x) && !fs.contains(x) by {
            if fs.contains(x) {
                let j = choose|j: int| 0 <= j < fs.len() && fs[j] == x;
                assert(0 <= j < fs.len() && fs[j] == x);
            }
        }
        assert forall|i: int, j: int| 0 <= i < j < fs.len() implies fs[i] != fs[j] by {
            lemma_no_face_twice(self, fs, 0, i, j);
        }
    }
}

/// A run of deletions that succeeds names no face twice: the second
/// deletion of a face fails.
pub proof fn lemma_no_face_twice(g: Graph, fs: Seq<FaceId>, k: int, i: int, j: int)
    requires
        0 <= k <= i < j < fs.len(),
        Edit::of(g).delete_faces(fs, k).err is None,
    ensures
        fs[i] != fs[j],
    decreases fs.len() - k,
{
    let deleted = Edit::of(g).delete_face(fs[k]);
    lemma_deleted_face_is_gone(g, fs[k]);
    assert(deleted == Edit::of(deleted.g));
    assert(Edit::of(g).delete_faces(fs, k) == Edit::of(deleted.g).delete_faces(fs, k + 1));
    if i == k {
        lemma_deleted_faces_are_gone(deleted.g, fs, k + 1);
        assert(deleted.g.faces.contains_key(fs[j]));
    } else {
        lemma_no_face_twice(deleted.g, fs, k + 1, i, j);
    }
}

impl Connectivity {
    /// Whether no face can be read from the opposite of a halfedge.
    pub fn opposite_is_boundary(&self, h: HalfedgeId) -> (r: bool)
        ensures
            r == self@.opposite_is_boundary(h),
    {
        match self.he_opposite(h) {
            Ok(o) => self.he_is_boundary(o),
            Err(_) => true,
        }
    }

    fn clear_faces(&mut self, hs: &Vec<HalfedgeId>) -> (r: SMeshResult<()>)
        ensures
            Edit::after(final(self)@, r) == Edit::of(old(self)@).clear_faces(hs@, 0),
            final(self).room() == old(self).room(),
    {
        let mut i: usize = 0;
        while i < hs.len()
            invariant
                0 <= i <= hs@.len(),
                Edit::of(old(self)@).clear_faces(hs@, 0) == Edit::of(self@).clear_faces(hs@, i as int),
                self.room() == old(self).room(),
            decreases hs@.len() - i,
        {
            self.set_face(hs[i], None)?;
            i += 1;
        }
        Ok(())
    }

    /// Removes a face and takes it off the halfedges of its loop. Vertices
    /// and edges stay. A face that is not live is an error, and nothing is
    /// changed.
    pub fn delete_only_face(&mut self, f: FaceId) -> (r: SMeshResult<()>)
        ensures
            old(self)@.paired() ==> final(self)@.paired(),
            Edit::after(final(self)@, r) == Edit::of(old(self)@).delete_only_face(f),
            !old(self)@.faces.contains_key(f) ==> r == Err::<(), SMeshError>(
                SMeshError::FaceNotFound(f),
            ) && final(self)@ == old(self)@,
            r is Ok ==> old(self)@.faces.contains_key(f) && final(self)@.faces == old(
                self,
            )@.faces.remove(f),
            final(self).room() == old(self).room(),
            old(self)@.in_order() ==> final(self)@.in_order(),
    {
        proof {
            if self@.in_order() {
                crate::kept_order::lemma_delete_only_face_in_order(Edit::of(self@), f);
            }
        }
        proof {
            if self@.paired() {
                crate::pairs::law_deletion_keeps_pairs(self@, arbitrary(), arbitrary(), f);
            }
        }
        proof {
            lemma_deleted_face_is_gone(self@, f);
        }
        self.face(f)?;
        let ring = self.face_halfedges(f);
        self.clear_faces(&ring)?;
        self.drop_face(f);
        Ok(())
    }

    fn try_adjust(&mut self, v: VertexId)
        ensures
            Edit::of(final(self)@) == Edit::of(old(self)@).try_adjust(v),
            final(self).room() == old(self).room(),
    {
        let _ = self.adjust_outgoing_halfedge(v);
    }

    fn release_vertex(&mut self, v: VertexId, gone: HalfedgeId, next: HalfedgeId) -> (r: SMeshResult<
        (),
    >)
        ensures
            Edit::after(final(self)@, r) == Edit::of(old(self)@).release_vertex(v, gone, next),
            final(self).room() == old(self).room(),
    {
        let h = self.vertex_halfedge(v)?;
        if h == gone {
            if next == gone {
                self.drop_vertex(v);
            } else {
                self.set_vertex_halfedge(v, Some(next))?;
            }
        }
        Ok(())
    }

    fn unlink_edge(&mut self, h0: HalfedgeId) -> (r: SMeshResult<()>)
        ensures
            Edit::after(final(self)@, r) == Edit::of(old(self)@).unlink_edge(h0),
            final(self).room() == old(self).room(),
    {
        let v0 = self.he_vertex(h0)?;
        let next0 = self.he_next(h0)?;
        let prev0 = self.he_prev(h0)?;
        let h1 = self.he_opposite(h0)?;
        let v1 = self.he_vertex(h1)?;
        let next1 = self.he_next(h1)?;
        let prev1 = self.he_prev(h1)?;
        self.set_next(prev0, Some(next1))?;
        self.set_next(prev1, Some(next0))?;
        self.drop_edge(h0);
        self.release_vertex(v0, h1, next0)?;
        self.release_vertex(v1, h0, next1)?;
        Ok(())
    }

    /// What the removal of a face looks at before it changes anything: the
    /// halfedges of the loop whose opposite is on the boundary, and the
    /// corners.
    fn survey_face(&self, ring: &Vec<HalfedgeId>) -> (r: SMeshResult<
        (Vec<HalfedgeId>, Vec<VertexId>),
    >)
        ensures
            match r {
                Ok(found) => self@.corners_readable(ring@, 0) is Ok && found.0@ == self@.lone_edges(
                    ring@,
                    0,
                    Seq::empty(),
                ) && found.1@ == self@.targets(ring@),
                Err(e) => self@.corners_readable(ring@, 0) == Err::<(), SMeshError>(e),
            },
    {
        let mut lone: Vec<HalfedgeId> = Vec::new();
        let mut corners: Vec<VertexId> = Vec::new();
        let mut i: usize = 0;
        proof {
            assert(ring@.skip(0) =~= ring@);
            assert(corners@ + self@.targets(ring@) =~= self@.targets(ring@));
        }
        while i < ring.len()
            invariant
                0 <= i <= ring@.len(),
                self@.lone_edges(ring@, 0, Seq::empty()) == self@.lone_edges(ring@, i as int, lone@),
                self@.corners_readable(ring@, 0) == self@.corners_readable(ring@, i as int),
                self@.targets(ring@) == corners@ + self@.targets(ring@.skip(i as int)),
            decreases ring@.len() - i,
        {
            proof {
                assert(ring@.skip(i as int).drop_first() =~= ring@.skip(i + 1));
            }
            if self.opposite_is_boundary(ring[i]) {
                lone.push(ring[i]);
            }
            let ghost before = corners@;
            let v = self.he_vertex(ring[i])?;
            corners.push(v);
            proof {
                assert(before + (seq![v] + self@.targets(ring@.skip(i + 1))) =~= corners@
                    + self@.targets(ring@.skip(i + 1)));
            }
            i += 1;
        }
        proof {
            assert(ring@.skip(ring@.len() as int) =~= Seq::<HalfedgeId>::empty());
            assert(corners@ + Seq::<VertexId>::empty() =~= corners@);
        }
        Ok((lone, corners))
    }

    fn unlink_edges(&mut self, hs: &Vec<HalfedgeId>) -> (r: SMeshResult<()>)
        ensures
            Edit::after(final(self)@, r) == Edit::of(old(self)@).unlink_edges(hs@, 0),
            final(self).room() == old(self).room(),
    {
        let mut k: usize = 0;
        while k < hs.len()
            invariant
                0 <= k <= hs@.len(),
                Edit::of(old(self)@).unlink_edges(hs@, 0) == Edit::of(self@).unlink_edges(
                    hs@,
                    k as int,
                ),
                self.room() == old(self).room(),
            decreases hs@.len() - k,
        {
            self.unlink_edge(hs[k])?;
            k += 1;
        }
        Ok(())
    }

    fn try_adjust_all(&mut self, vs: &Vec<VertexId>)
        ensures
            Edit::of(final(self)@) == Edit::of(old(self)@).try_adjust_all(vs@, 0),
            final(self).room() == old(self).room(),
    {
        let mut k: usize = 0;
        while k < vs.len()
            invariant
                0 <= k <= vs@.len(),
                Edit::of(old(self)@).try_adjust_all(vs@, 0) == Edit::of(self@).try_adjust_all(
                    vs@,
                    k as int,
                ),
                self.room() == old(self).room(),
            decreases vs@.len() - k,
        {
            self.try_adjust(vs[k]);
            k += 1;
        }
    }

    /// Removes a face, the edges that then border no face, and the vertices
    /// that then have no edge. A face that is not live is an error, and
    /// nothing is changed.
    pub fn delete_face(&mut self, f: FaceId) -> (r: SMeshResult<()>)
        ensures
            old(self)@.paired() ==> final(self)@.paired(),
            Edit::after(final(self)@, r) == Edit::of(old(self)@).delete_face(f),
            !old(self)@.faces.contains_key(f) ==> r == Err::<(), SMeshError>(
                SMeshError::FaceNotFound(f),
            ) && final(self)@ == old(self)@,
            r is Ok ==> old(self)@.faces.contains_key(f) && final(self)@.faces == old(
                self,
            )@.faces.remove(f),
            final(self).room() == old(self).room(),
    {
        proof {
            if self@.paired() {
                crate::pairs::law_deletion_keeps_pairs(self@, arbitrary(), arbitrary(), f);
            }
        }
        proof {
            lemma_deleted_face_is_gone(self@, f);
        }
        self.face(f)?;
        let ring = self.face_halfedges(f);
        let found = self.survey_face(&ring)?;
        self.clear_faces(&ring)?;
        self.drop_face(f);
        self.unlink_edges(&found.0)?;
        self.try_adjust_all(&found.1);
        Ok(())
    }

    fn delete_faces(&mut self, fs: &Vec<FaceId>) -> (r: SMeshResult<()>)
        ensures
            Edit::after(final(self)@, r) == Edit::of(old(self)@).delete_faces(fs@, 0),
            final(self).room() == old(self).room(),
    {
        let mut k: usize = 0;
        while k < fs.len()
            invariant
                0 <= k <= fs@.len(),
                Edit::of(old(self)@).delete_faces(fs@, 0) == Edit::of(self@).delete_faces(
                    fs@,
                    k as int,
                ),
                self.room() == old(self).room(),
            decreases fs@.len() - k,
        {
            self.delete_face(fs[k])?;
            k += 1;
        }
        Ok(())
    }

    /// Removes a vertex after the faces around it, and with them the edges
    /// and vertices that are then left on their own.
    pub fn delete_vertex(&mut self, v: VertexId) -> (r: SMeshResult<()>)
        ensures
            old(self)@.paired() ==> final(self)@.paired(),
            Edit::after(final(self)@, r) == Edit::of(old(self)@).delete_vertex(v),
            r is Ok ==> old(self)@.vertex_deleted(v, final(self)@),
            final(self).room() == old(self).room(),
    {
        proof {
            if self@.paired() {
                crate::pairs::law_deletion_keeps_pairs(self@, v, arbitrary(), arbitrary());
            }
        }
        proof {
            if Edit::of(self@).delete_vertex(v).err is None {
                self@.law_vertex_deletion(v);
            }
        }
        let around = self.vertex_faces(v);
        self.delete_faces(&around)?;
        self.drop_vertex(v);
        Ok(())
    }

    fn delete_face_of(&mut self, h: SMeshResult<HalfedgeId>) -> (r: SMeshResult<()>)
        ensures
            Edit::after(final(self)@, r) == Edit::of(old(self)@).delete_face_of(h),
            final(self).room() == old(self).room(),
    {
        match h {
            Err(_) => Ok(()),
            Ok(h) => match self.he_face(h) {
                Ok(f) => self.delete_face(f),
                Err(_) => Ok(()),
            },
        }
    }

    /// Removes an edge after the faces on both of its sides.
    pub fn delete_edge(&mut self, h: HalfedgeId) -> (r: SMeshResult<()>)
        ensures
            old(self)@.paired() ==> final(self)@.paired(),
            Edit::after(final(self)@, r) == Edit::of(old(self)@).delete_edge(h),
            final(self).room() == old(self).room(),
    {
        proof {
            if self@.paired() {
                crate::pairs::law_deletion_keeps_pairs(self@, arbitrary(), h, arbitrary());
            }
        }
        self.delete_face_of(Ok(h))?;
        let o = self.he_opposite(h);
        self.delete_face_of(o)?;
        self.drop_edge(h);
        Ok(())
    }

    fn adjust_all(&mut self, vs: &Vec<VertexId>) -> (r: SMeshResult<()>)
        ensures
            Edit::after(final(self)@, r) == Edit::of(old(self)@).adjust_all(vs@, 0),
            final(self).room() == old(self).room(),
    {
        let mut k: usize = 0;
        while k < vs.len()
            invariant
                0 <= k <= vs@.len(),
                Edit::of(old(self)@).adjust_all(vs@, 0) == Edit::of(self@).adjust_all(vs@, k as int),
                self.room() == old(self).room(),
            decreases vs@.len() - k,
        {
            self.adjust_outgoing_halfedge(vs[k])?;
            k += 1;
        }
        Ok(())
    }

    fn rethread(&mut self, hs: &Vec<HalfedgeId>)
        ensures
            Edit::of(final(self)@) == Edit::of(old(self)@).rethread(hs@, 0),
            final(self).room() == old(self).room(),
    {
        let mut k: usize = 0;
        while k < hs.len()
            invariant
                0 <= k <= hs@.len(),
                Edit::of(old(self)@).rethread(hs@, 0) == Edit::of(self@).rethread(hs@, k as int),
                self.room() == old(self).room(),
            decreases hs@.len() - k,
        {
            let next = match self.he_vertex(hs[k]) {
                Ok(v) => match self.vertex_halfedge(v) {
                    Ok(h) => Some(h),
                    Err(_) => None,
                },
                Err(_) => None,
            };
            let _ = self.set_next(hs[k], next);
            k += 1;
        }
    }

    /// Removes only an edge: the faces on its sides go, as `delete_only_face`
    /// removes them, and every vertex stays. Nothing happens where the
    /// halfedge is not live.
    pub fn delete_only_edge(&mut self, e: HalfedgeId) -> (r: SMeshResult<()>)
        ensures
            old(self)@.paired() ==> final(self)@.paired(),
            Edit::after(final(self)@, r) == Edit::of(old(self)@).delete_only_edge(e),
            final(self).room() == old(self).room(),
    {
        proof {
            if self@.paired() {
                crate::pairs::law_deletion_keeps_pairs(self@, arbitrary(), e, arbitrary());
            }
        }
        if self.he(e).is_err() {
            return Ok(());
        }
        if let Ok(f) = self.he_face(e) {
            let _ = self.delete_only_face(f);
        }
        let src = self.src_vertex(e)?;
        let mut ends: Vec<VertexId> = Vec::new();
        ends.push(src);
        let mut inbound: Vec<HalfedgeId> = Vec::new();
        if let Ok(p) = self.he_prev(e) {
            inbound.push(p);
        }
        proof {
            assert(ends@ =~= seq![src]);
            assert(inbound@ =~= (match self@.he_prev(e) {
                Ok(p) => seq![p],
                Err(_) => Seq::<HalfedgeId>::empty(),
            }));
        }
        if let Ok(o) = self.he_opposite(e) {
            if let Ok(f) = self.he_face(o) {
                self.delete_only_face(f)?;
            }
            if let Ok(p) = self.he_prev(o) {
                if !crate::selection::has_halfedge(&inbound, p) {
                    inbound.push(p);
                }
            }
            let dst = self.src_vertex(o)?;
            if !crate::selection::has_vertex(&ends, dst) {
                ends.push(dst);
            }
        }
        self.drop_edge(e);
        self.adjust_all(&ends)?;
        self.rethread(&inbound);
        Ok(())
    }
}

impl SMesh {
    /// Removes a face and takes it off the halfedges of its loop. Vertices
    /// and edges stay. A face that is not live is an error, and nothing is
    /// changed.
    pub fn delete_only_face(&mut self, f: FaceId) -> (r: SMeshResult<()>)
        ensures
            old(self).graph().paired() ==> final(self).graph().paired(),
            Edit::after(final(self).graph(), r) == Edit::of(old(self).graph()).delete_only_face(f),
            !old(self).graph().faces.contains_key(f) ==> r == Err::<(), SMeshError>(
                SMeshError::FaceNotFound(f),
            ) && final(self).graph() == old(self).graph(),
            r is Ok ==> old(self).graph().faces.contains_key(f) && final(self).graph().faces
                == old(self).graph().faces.remove(f),
            final(self).attributes() == old(self).attributes(),
            final(self).room() == old(self).room(),
            old(self).graph().in_order() ==> final(self).graph().in_order(),
    {
        self.connectivity.delete_only_face(f)
    }

    /// Removes a face, the edges that then border no face, and the vertices
    /// that then have no edge. A face that is not live is an error, and
    /// nothing is changed.
    pub fn delete_face(&mut self, f: FaceId) -> (r: SMeshResult<()>)
        ensures
            old(self).graph().paired() ==> final(self).graph().paired(),
            Edit::after(final(self).graph(), r) == Edit::of(old(self).graph()).delete_face(f),
            !old(self).graph().faces.contains_key(f) ==> r == Err::<(), SMeshError>(
                SMeshError::FaceNotFound(f),
            ) && final(self).graph() == old(self).graph(),
            r is Ok ==> old(self).graph().faces.contains_key(f) && final(self).graph().faces
                == old(self).graph().faces.remove(f),
            final(self).attributes() == old(self).attributes(),
            final(self).room() == old(self).room(),
    {
        self.connectivity.delete_face(f)
    }

    /// Removes a vertex after the faces around it, and with them the edges
    /// and vertices that are then left on their own.
    pub fn delete_vertex(&mut self, v: VertexId) -> (r: SMeshResult<()>)
        ensures
            old(self).graph().paired() ==> final(self).graph().paired(),
            Edit::after(final(self).graph(), r) == Edit::of(old(self).graph()).delete_vertex(v),
            r is Ok ==> old(self).graph().vertex_deleted(v, final(self).graph()),
            final(self).attributes() == old(self).attributes(),
            final(self).room() == old(self).room(),
    {
        self.connectivity.delete_vertex(v)
    }

    /// Removes an edge after the faces on both of its sides.
    pub fn delete_edge(&mut self, h: HalfedgeId) -> (r: SMeshResult<()>)
        ensures
            old(self).graph().paired() ==> final(self).graph().paired(),
            Edit::after(final(self).graph(), r) == Edit::of(old(self).graph()).delete_edge(h),
            final(self).attributes() == old(self).attributes(),
            final(self).room() == old(self).room(),
    {
        self.connectivity.delete_edge(h)
    }

    /// Removes only an edge: the faces on its sides go, as `delete_only_face`
    /// removes them, and every vertex stays. Nothing happens where the
    /// halfedge is not live.
    pub fn delete_only_edge(&mut self, e: HalfedgeId) -> (r: SMeshResult<()>)
        ensures
            old(self).graph().paired() ==> final(self).graph().paired(),
            Edit::after(final(self).graph(), r) == Edit::of(old(self).graph()).delete_only_edge(e),
            final(self).attributes() == old(self).attributes(),
            final(self).room() == old(self).room(),
    {
        self.connectivity.delete_only_edge(e)
    }
}

} // verus!
