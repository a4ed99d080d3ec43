use vstd::prelude::*;
use crate::attribute::Point3;
use crate::edit::Edit;
use crate::error::{SMeshError, SMeshResult, MSG_NOT_BOUNDARY};
use crate::face_plan::next_index;
use crate::graph::Graph;
use crate::mesh::SMesh;
use crate::mesh_elements::{slot_of, FaceId, HalfedgeId, VertexId};
use crate::world::{corner_count, faces_view, fresh_vertices, polygons, World};

verus! {

/// The last of the faces, or the error.
pub open spec fn last_face(fs: SMeshResult<Seq<FaceId>>) -> SMeshResult<FaceId> {
    match fs {
        Ok(ids) => Ok(ids.last()),
        Err(e) => Err(e),
    }
}

/// The wall over the `i`-th side of an extruded face: from the old side up
/// to the copies of its two ends.
pub open spec fn wall(olds: Seq<VertexId>, news: Seq<VertexId>, i: int) -> Seq<VertexId> {
    let j = next_index(i, olds.len() as int);
    seq![olds[i], olds[j], news[j], news[i]]
}

/// The faces of an extrusion: one wall for each side, then the top over the
/// copies.
pub open spec fn extrusion_polygons(olds: Seq<VertexId>, news: Seq<VertexId>) -> Seq<Seq<VertexId>> {
    Seq::new(olds.len(), |i: int| wall(olds, news, i)).push(news)
}

/// The corners of `n` walls and a top over `n` vertices.
pub proof fn lemma_extrusion_corners(polys: Seq<Seq<VertexId>>, n: int, i: int)
    requires
        0 <= i <= n,
        polys.len() == n + 1,
        polys[n].len() == n,
        forall|k: int| 0 <= k < n ==> (#[trigger] polys[k]).len() == 4,
    ensures
        corner_count(polys, i) == 4 * (n - i) + n,
    decreases n - i,
{
    if i < n {
        lemma_extrusion_corners(polys, n, i + 1);
    } else {
        assert(corner_count(polys, n + 1) == 0);
    }
}

impl Graph {
    /// The boundary halfedge of the edge of `e0`: `e0` itself if it is on
    /// the boundary, else its opposite, which then must be.
    pub open spec fn boundary_side(self, e0: HalfedgeId) -> SMeshResult<HalfedgeId> {
        if self.he_is_boundary(e0) {
            Ok(e0)
        } else {
            match self.he_opposite(e0) {
                Err(e) => Err(e),
                Ok(o) => if self.he_is_boundary(o) {
                    Ok(o)
                } else {
                    Err(SMeshError::CustomError(MSG_NOT_BOUNDARY))
                },
            }
        }
    }

    /// Constructing the faces in order gives the graph `after` and, as the
    /// result `r`, the last of them.
    pub open spec fn faces_made_last(
        self,
        polys: Seq<Seq<VertexId>>,
        after: Graph,
        r: SMeshResult<FaceId>,
    ) -> bool {
        exists|fs: SMeshResult<Seq<FaceId>>| #[trigger]
            self.faces_made(polys, 0, Seq::empty(), after, fs) && r == last_face(fs)
    }

    /// Constructing the quad gives the graph `after`, in which `r` is what
    /// the search for the halfedge from `a` to `b` gives; or the
    /// construction fails with `r`.
    pub open spec fn quad_edge_made(
        self,
        quad: Seq<VertexId>,
        a: VertexId,
        b: VertexId,
        after: Graph,
        r: SMeshResult<HalfedgeId>,
    ) -> bool {
        exists|made: SMeshResult<FaceId>| #[trigger]
            self.made_face(quad, after, made) && r == (match made {
                Err(e) => Err(e),
                Ok(_) => after.halfedge_to(a, b),
            })
    }
}

impl Graph {
    /// The face has at least three corners, all of them live vertices and
    /// no two the same.
    pub open spec fn corners_in_order(self, face: FaceId) -> bool {
        &&& self.face_vertices(face).no_duplicates()
        &&& self.face_vertices(face).len() >= 3
        &&& forall|k: int|
            0 <= k < self.face_vertices(face).len() ==> self.vertices.contains_key(
                #[trigger] self.face_vertices(face)[k],
            )
    }
}

impl World {
    /// The two ends of the boundary side of the edge, where they can be
    /// read, are different live vertices.
    pub open spec fn ends_in_order(self, e0: HalfedgeId) -> bool {
        self.edge_site(e0) is Ok ==> self.edge_site(e0)->Ok_0.0 != self.edge_site(e0)->Ok_0.1
            && self.g.vertices.contains_key(self.edge_site(e0)->Ok_0.0)
            && self.g.vertices.contains_key(self.edge_site(e0)->Ok_0.1)
    }

    /// The extrusion of a face under the given identifiers of the copies.
    pub open spec fn extruded_with(
        self,
        face: FaceId,
        olds: Seq<VertexId>,
        ps: Seq<Point3>,
        news: Seq<VertexId>,
        after: World,
        r: SMeshResult<FaceId>,
    ) -> bool {
        let w1 = self.with_copies(ps, news);
        let e = Edit::of(w1.g).delete_only_face(face);
        &&& news.len() == olds.len()
        &&& fresh_vertices(self.g, news)
        &&& after.a == w1.a
        &&& (match e.err {
            Some(err) => after.g == e.g && r == Err::<FaceId, SMeshError>(err),
            None => e.g.faces_made_last(extrusion_polygons(olds, news), after.g, r),
        })
    }

    /// The world `after` and the result `r` are what extruding a face makes
    /// of this world. Nothing is changed where a corner of the face has no
    /// position. Else each corner gets a copy at its position, the face is
    /// removed, a wall is built over each of its sides up to the copies, and
    /// the face is built again over the copies; the result is that face.
    pub open spec fn extruded(self, face: FaceId, after: World, r: SMeshResult<FaceId>) -> bool {
        let olds = self.g.face_vertices(face);
        match self.positions(olds, 0, Seq::empty()) {
            Err(e) => after == self && r == Err::<FaceId, SMeshError>(e),
            Ok(ps) => self.extruded_somehow(face, olds, ps, after, r),
        }
    }

    /// The extrusion of a face under some fresh identifiers.
    pub open spec fn extruded_somehow(
        self,
        face: FaceId,
        olds: Seq<VertexId>,
        ps: Seq<Point3>,
        after: World,
        r: SMeshResult<FaceId>,
    ) -> bool {
        exists|news: Seq<VertexId>| #[trigger] self.extruded_with(face, olds, ps, news, after, r)
    }

    /// The extrusion of the boundary edge from `v0` to `v1` with `a` and `b`
    /// as the copies of its ends.
    pub open spec fn edge_extruded_with(
        self,
        v0: VertexId,
        v1: VertexId,
        at0: Point3,
        at1: Point3,
        a: VertexId,
        b: VertexId,
        after: World,
        r: SMeshResult<HalfedgeId>,
    ) -> bool {
        let w1 = self.added(at0, a).added(at1, b);
        &&& !self.g.vertices.contains_key(a)
        &&& !self.g.vertices.contains_key(b)
        &&& a != b
        &&& self.g.vertex_free(a)
        &&& self.g.vertex_free(b)
        &&& slot_of(a@) != slot_of(b@)
        &&& after.a == w1.a
        &&& w1.g.quad_edge_made(seq![v0, v1, b, a], a, b, after.g, r)
    }

    /// The extrusion of a boundary edge under some fresh identifiers.
    pub open spec fn edge_extruded_somehow(
        self,
        v0: VertexId,
        v1: VertexId,
        at0: Point3,
        at1: Point3,
        after: World,
        r: SMeshResult<HalfedgeId>,
    ) -> bool {
        exists|a: VertexId, b: VertexId| #[trigger]
            self.edge_extruded_with(v0, v1, at0, at1, a, b, after, r)
    }

    /// What an edge extrusion reads before it changes anything: the ends of
    /// the boundary side and their positions.
    pub open spec fn edge_site(self, e0: HalfedgeId) -> SMeshResult<
        (VertexId, VertexId, Point3, Point3),
    > {
        match self.g.boundary_side(e0) {
            Err(e) => Err(e),
            Ok(e) => match self.g.src_vertex(e) {
                Err(e) => Err(e),
                Ok(v0) => match self.g.he_vertex(e) {
                    Err(e) => Err(e),
                    Ok(v1) => match self.position(v0) {
                        Err(e) => Err(e),
                        Ok(at0) => match self.position(v1) {
                            Err(e) => Err(e),
                            Ok(at1) => Ok((v0, v1, at0, at1)),
                        },
                    },
                },
            },
        }
    }

    /// The world `after` and the result `r` are what extruding the edge of
    /// `e0` makes of this world. Nothing is changed where the edge has no
    /// boundary side or an end has no position. Else both ends get a copy
    /// at their position and a quad is built from the edge up to the copies;
    /// the result is the halfedge between the copies.
    pub open spec fn edge_extruded(self, e0: HalfedgeId, after: World, r: SMeshResult<HalfedgeId>) -> bool {
        match self.edge_site(e0) {
            Err(e) => after == self && r == Err::<HalfedgeId, SMeshError>(e),
            Ok(site) => self.edge_extruded_somehow(site.0, site.1, site.2, site.3, after, r),
        }
    }
}

fn extrusion_faces(olds: &Vec<VertexId>, news: &Vec<VertexId>) -> (polys: Vec<Vec<VertexId>>)
    requires
        olds@.len() == news@.len(),
    ensures
        polygons(polys@) == extrusion_polygons(olds@, news@),
{
    let n = olds.len();
    let mut polys: Vec<Vec<VertexId>> = Vec::new();
    let mut i: usize = 0;
    while i < n
        invariant
            0 <= i <= n,
            n == olds@.len(),
            n == news@.len(),
            polys@.len() == i,
            forall|k: int| 0 <= k < i ==> (#[trigger] polys@[k])@ == wall(olds@, news@, k),
        decreases n - i,
    {
        let j = if i + 1 >= n {
            0
        } else {
            i + 1
        };
        let mut quad: Vec<VertexId> = Vec::new();
        quad.push(olds[i]);
        quad.push(olds[j]);
        quad.push(news[j]);
        quad.push(news[i]);
        proof {
            assert(quad@ =~= wall(olds@, news@, i as int));
        }
        polys.push(quad);
        i += 1;
    }
    polys.push(crate::world::copy_polygon(news));
    proof {
        assert(polygons(polys@) =~= extrusion_polygons(olds@, news@));
    }
    polys
}

impl SMesh {
    /// The boundary halfedge of the edge of `e0`.
    pub fn boundary_side(&self, e0: HalfedgeId) -> (r: SMeshResult<HalfedgeId>)
        ensures
            r == self.graph().boundary_side(e0),
    {
        if self.connectivity.he_is_boundary(e0) {
            return Ok(e0);
        }
        let o = self.connectivity.he_opposite(e0)?;
        if !self.connectivity.he_is_boundary(o) {
            return Err(SMeshError::CustomError(MSG_NOT_BOUNDARY));
        }
        Ok(o)
    }

    /// `extrude` with its exact contract.
    fn extrude_exact(&mut self, face: FaceId) -> (r: SMeshResult<FaceId>)
        requires
            old(self).room().covers(
                old(self).graph().face_vertices(face).len() as int,
                10 * (old(self).graph().face_vertices(face).len() as int),
                old(self).graph().face_vertices(face).len() as int + 1,
            ),
        ensures
            old(self).world().extruded(face, final(self).world(), r),
            final(self).room().within(
                old(self).room(),
                old(self).graph().face_vertices(face).len() as int,
                10 * (old(self).graph().face_vertices(face).len() as int),
                old(self).graph().face_vertices(face).len() as int + 1,
            ),
    {
        let olds = self.connectivity.face_vertices(face);
        let ps = self.positions_of(&olds)?;
        let news = self.add_vertices(&ps);
        let ghost w1 = self.world();
        match self.delete_only_face(face) {
            Err(e) => {
                proof {
                    assert(old(self).world().extruded_with(
                        face,
                        olds@,
                        ps@,
                        news@,
                        self.world(),
                        Err::<FaceId, SMeshError>(e),
                    ));
                }
                return Err(e);
            },
            Ok(()) => {},
        }
        let ghost g2 = self.graph();
        let polys = extrusion_faces(&olds, &news);
        proof {
            lemma_extrusion_corners(polygons(polys@), olds@.len() as int, 0);
        }
        let made = self.make_faces(&polys);
        let ghost fs = faces_view(made);
        let r = match &made {
            Ok(fs) => Ok(fs[fs.len() - 1]),
            Err(e) => Err(*e),
        };
        proof {
            assert(g2.faces_made(polygons(polys@), 0, Seq::empty(), self.graph(), fs));
            assert(r == last_face(fs));
            assert(g2.faces_made_last(extrusion_polygons(olds@, news@), self.graph(), r));
            assert(old(self).world().extruded_with(face, olds@, ps@, news@, self.world(), r));
        }
        r
    }

    /// Extrudes a face: its corners are copied, a wall is built over each of
    /// its sides, and the face itself is built again over the copies. Gives
    /// the face over the copies.
    pub fn extrude(&mut self, face: FaceId) -> (r: SMeshResult<FaceId>)
        requires
            old(self).room().covers(
                old(self).graph().face_vertices(face).len() as int,
                10 * (old(self).graph().face_vertices(face).len() as int),
                old(self).graph().face_vertices(face).len() as int + 1,
            ),
        ensures
            old(self).world().extruded(face, final(self).world(), r),
            final(self).room().within(
                old(self).room(),
                old(self).graph().face_vertices(face).len() as int,
                10 * (old(self).graph().face_vertices(face).len() as int),
                old(self).graph().face_vertices(face).len() as int + 1,
            ),
            old(self).graph().paired() ==> final(self).graph().paired(),
            old(self).graph().in_order() && old(self).graph().corners_in_order(face) && r is Ok
                ==> final(self).graph().in_order(),
    {
        let ghost w = self.world();
        let r = self.extrude_exact(face);
        proof {
            if w.g.paired() {
                w.law_extrusion_keeps_pairs(face, arbitrary(), self.world(), r, arbitrary());
            }
            if w.g.in_order() && w.g.corners_in_order(face) && r is Ok {
                w.law_extrusion_keeps_order(face, self.world(), r);
            }
        }
        r
    }

    /// `extrude_edge` with its exact contract.
    fn extrude_edge_exact(&mut self, e0: HalfedgeId) -> (r: SMeshResult<HalfedgeId>)
        requires
            old(self).room().covers(2, 8, 1),
        ensures
            old(self).world().edge_extruded(e0, final(self).world(), r),
            final(self).room().within(old(self).room(), 2, 8, 1),
    {
        let e = self.boundary_side(e0)?;
        let v0 = self.connectivity.src_vertex(e)?;
        let v1 = self.connectivity.he_vertex(e)?;
        let at0 = self.position(v0)?;
        let at1 = self.position(v1)?;
        let a = self.add_vertex(at0);
        let ghost g_mid = self.graph();
        let b = self.add_vertex(at1);
        let ghost g1 = self.graph();
        proof {
            assert(g_mid.vertices.contains_key(a));
            assert(g_mid.vertex_free(b));
            assert(slot_of(a@) != slot_of(b@));
            assert forall|u: VertexId| #[trigger]
                old(self).graph().vertices.contains_key(u) implies slot_of(u@) != slot_of(b@) by {
                assert(g_mid.vertices.contains_key(u));
            }
        }
        let mut quad: Vec<VertexId> = Vec::new();
        quad.push(v0);
        quad.push(v1);
        quad.push(b);
        quad.push(a);
        proof {
            assert(quad@ =~= seq![v0, v1, b, a]);
        }
        let made = self.make_face(quad);
        let r = match made {
            Err(e) => Err(e),
            Ok(_) => self.connectivity.halfedge_to(a, b),
        };
        proof {
            assert(g1.made_face(seq![v0, v1, b, a], self.graph(), made));
            assert(g1.quad_edge_made(seq![v0, v1, b, a], a, b, self.graph(), r));
            assert(old(self).world().edge_extruded_with(v0, v1, at0, at1, a, b, self.world(), r));
        }
        r
    }

    /// Extrudes a boundary edge: its ends are copied and a quad is built
    /// from the edge up to the copies. Gives the halfedge between the
    /// copies.
    pub fn extrude_edge(&mut self, e0: HalfedgeId) -> (r: SMeshResult<HalfedgeId>)
        requires
            old(self).room().covers(2, 8, 1),
        ensures
            old(self).world().edge_extruded(e0, final(self).world(), r),
            final(self).room().within(old(self).room(), 2, 8, 1),
            old(self).graph().paired() ==> final(self).graph().paired(),
            old(self).graph().in_order() && old(self).world().ends_in_order(e0) && r is Ok
                ==> final(self).graph().in_order(),
    {
        let ghost w = self.world();
        let r = self.extrude_edge_exact(e0);
        proof {
            if w.g.paired() {
                w.law_extrusion_keeps_pairs(arbitrary(), e0, self.world(), arbitrary(), r);
            }
            if w.g.in_order() && w.ends_in_order(e0) && r is Ok {
                w.law_edge_extrusion_keeps_order(e0, self.world(), r);
            }
        }
        r
    }
}

} // verus!
