use vstd::prelude::*;
use crate::error::{SMeshError, SMeshResult, MSG_NO_CONNECTION, MSG_SAME_VERTEX};
use crate::mesh_elements::{slot_of, Face, FaceId, Halfedge, HalfedgeId, Vertex, VertexId};

verus! {

/// The step that a walk over halfedges repeats.
#[derive(Debug, Clone, Copy, PartialEq, Eq, Structural)]
pub enum Turn {
    /// Around the source vertex: the previous halfedge, then its opposite.
    Ccw,
    /// Around the source vertex, the other way: the opposite, then its next.
    Cw,
    /// Around the face: the next halfedge.
    Next,
}

/// The connectivity of a mesh as a mathematical value: the live records of
/// each kind by identifier, and how many of each kind there are.
pub struct Graph {
    pub vertices: Map<VertexId, Vertex>,
    pub halfedges: Map<HalfedgeId, Halfedge>,
    pub faces: Map<FaceId, Face>,
    pub n_vertices: nat,
    pub n_halfedges: nat,
    pub n_faces: nat,
}

impl Graph {
    /// The record of a vertex.
    pub open spec fn vert(self, v: VertexId) -> SMeshResult<Vertex> {
        if self.vertices.contains_key(v) {
            Ok(self.vertices[v])
        } else {
            Err(SMeshError::VertexNotFound(v))
        }
    }

    /// The record of a halfedge.
    pub open spec fn he(self, h: HalfedgeId) -> SMeshResult<Halfedge> {
        if self.halfedges.contains_key(h) {
            Ok(self.halfedges[h])
        } else {
            Err(SMeshError::HalfedgeNotFound(h))
        }
    }

    /// The record of a face.
    pub open spec fn face(self, f: FaceId) -> SMeshResult<Face> {
        if self.faces.contains_key(f) {
            Ok(self.faces[f])
        } else {
            Err(SMeshError::FaceNotFound(f))
        }
    }

    /// The outgoing halfedge that a vertex stores.
    pub open spec fn vertex_halfedge(self, v: VertexId) -> SMeshResult<HalfedgeId> {
        match self.vert(v) {
            Err(e) => Err(e),
            Ok(rec) => match rec.halfedge {
                Some(h) => Ok(h),
                None => Err(SMeshError::VertexHasNoHalfEdge(v)),
            },
        }
    }

    /// The halfedge that a face stores.
    pub open spec fn face_halfedge(self, f: FaceId) -> SMeshResult<HalfedgeId> {
        match self.face(f) {
            Err(e) => Err(e),
            Ok(rec) => match rec.halfedge {
                Some(h) => Ok(h),
                None => Err(SMeshError::FaceHasNoHalfEdge(f)),
            },
        }
    }

    /// The vertex a halfedge points to.
    pub open spec fn he_vertex(self, h: HalfedgeId) -> SMeshResult<VertexId> {
        match self.he(h) {
            Err(e) => Err(e),
            Ok(rec) => Ok(rec.vertex),
        }
    }

    pub open spec fn he_opposite(self, h: HalfedgeId) -> SMeshResult<HalfedgeId> {
        match self.he(h) {
            Err(e) => Err(e),
            Ok(rec) => match rec.opposite {
                Some(o) => Ok(o),
                None => Err(SMeshError::HalfedgeHasNoOpposite(h)),
            },
        }
    }

    pub open spec fn he_next(self, h: HalfedgeId) -> SMeshResult<HalfedgeId> {
        match self.he(h) {
            Err(e) => Err(e),
            Ok(rec) => match rec.next {
                Some(n) => Ok(n),
                None => Err(SMeshError::HalfedgeHasNoNext(h)),
            },
        }
    }

    pub open spec fn he_prev(self, h: HalfedgeId) -> SMeshResult<HalfedgeId> {
        match self.he(h) {
            Err(e) => Err(e),
            Ok(rec) => match rec.prev {
                Some(p) => Ok(p),
                None => Err(SMeshError::HalfedgeHasNoPrev(h)),
            },
        }
    }

    pub open spec fn he_face(self, h: HalfedgeId) -> SMeshResult<FaceId> {
        match self.he(h) {
            Err(e) => Err(e),
            Ok(rec) => match rec.face {
                Some(f) => Ok(f),
                None => Err(SMeshError::HalfedgeHasNoFace(h)),
            },
        }
    }

    /// The vertex a halfedge leaves: the one its opposite points to.
    pub open spec fn src_vertex(self, h: HalfedgeId) -> SMeshResult<VertexId> {
        match self.he_opposite(h) {
            Err(e) => Err(e),
            Ok(o) => self.he_vertex(o),
        }
    }

    /// The next halfedge around the source vertex in the one direction:
    /// the opposite, then its next.
    pub open spec fn cw(self, h: HalfedgeId) -> SMeshResult<HalfedgeId> {
        match self.he_opposite(h) {
            Err(e) => Err(e),
            Ok(o) => self.he_next(o),
        }
    }

    /// The next halfedge around the source vertex in the other direction:
    /// the previous, then its opposite.
    pub open spec fn ccw(self, h: HalfedgeId) -> SMeshResult<HalfedgeId> {
        match self.he_prev(h) {
            Err(e) => Err(e),
            Ok(p) => self.he_opposite(p),
        }
    }

    /// A halfedge is on the boundary when no face can be read from it.
    pub open spec fn he_is_boundary(self, h: HalfedgeId) -> bool {
        self.he_face(h) is Err
    }

    pub open spec fn with_vertex(self, v: VertexId, rec: Vertex) -> Graph {
        Graph { vertices: self.vertices.insert(v, rec), ..self }
    }

    pub open spec fn with_halfedge(self, h: HalfedgeId, rec: Halfedge) -> Graph {
        Graph { halfedges: self.halfedges.insert(h, rec), ..self }
    }

    pub open spec fn with_face(self, f: FaceId, rec: Face) -> Graph {
        Graph { faces: self.faces.insert(f, rec), ..self }
    }

    /// The graph with one more vertex under an identifier that was free.
    pub open spec fn plus_vertex(self, v: VertexId, rec: Vertex) -> Graph {
        Graph { vertices: self.vertices.insert(v, rec), n_vertices: self.n_vertices + 1, ..self }
    }

    pub open spec fn plus_halfedge(self, h: HalfedgeId, rec: Halfedge) -> Graph {
        Graph {
            halfedges: self.halfedges.insert(h, rec),
            n_halfedges: self.n_halfedges + 1,
            ..self
        }
    }

    pub open spec fn plus_face(self, f: FaceId, rec: Face) -> Graph {
        Graph { faces: self.faces.insert(f, rec), n_faces: self.n_faces + 1, ..self }
    }

    /// The graph without the vertex; unchanged when the vertex is not live.
    pub open spec fn minus_vertex(self, v: VertexId) -> Graph {
        if self.vertices.contains_key(v) {
            Graph {
                vertices: self.vertices.remove(v),
                n_vertices: (self.n_vertices - 1) as nat,
                ..self
            }
        } else {
            self
        }
    }

    pub open spec fn minus_halfedge(self, h: HalfedgeId) -> Graph {
        if self.halfedges.contains_key(h) {
            Graph {
                halfedges: self.halfedges.remove(h),
                n_halfedges: (self.n_halfedges - 1) as nat,
                ..self
            }
        } else {
            self
        }
    }

    pub open spec fn minus_face(self, f: FaceId) -> Graph {
        if self.faces.contains_key(f) {
            Graph { faces: self.faces.remove(f), n_faces: (self.n_faces - 1) as nat, ..self }
        } else {
            self
        }
    }

    /// The identifier `v` can be handed out for a new vertex: its slot is not
    /// the null slot and is the slot of no live vertex. In particular `v` is
    /// no live vertex itself.
    pub open spec fn vertex_free(self, v: VertexId) -> bool {
        &&& slot_of(v@) != 0xFFFF_FFFF
        &&& forall|u: VertexId| #[trigger] self.vertices.contains_key(u) ==> slot_of(u@) != slot_of(v@)
    }

    /// The live vertex `v` has a slot of its own: not the null slot, and
    /// the slot of no other live vertex.
    pub open spec fn vertex_alone(self, v: VertexId) -> bool {
        &&& slot_of(v@) != 0xFFFF_FFFF
        &&& forall|u: VertexId|
            #[trigger] self.vertices.contains_key(u) && slot_of(u@) == slot_of(v@) ==> u == v
    }

    /// The live halfedge `h` has a slot of its own.
    pub open spec fn halfedge_alone(self, h: HalfedgeId) -> bool {
        &&& slot_of(h@) != 0xFFFF_FFFF
        &&& forall|u: HalfedgeId|
            #[trigger] self.halfedges.contains_key(u) && slot_of(u@) == slot_of(h@) ==> u == h
    }

    /// The live face `f` has a slot of its own.
    pub open spec fn face_alone(self, f: FaceId) -> bool {
        &&& slot_of(f@) != 0xFFFF_FFFF
        &&& forall|u: FaceId|
            #[trigger] self.faces.contains_key(u) && slot_of(u@) == slot_of(f@) ==> u == f
    }

    /// The graph without any record.
    pub open spec fn empty() -> Graph {
        Graph {
            vertices: Map::empty(),
            halfedges: Map::empty(),
            faces: Map::empty(),
            n_vertices: 0,
            n_halfedges: 0,
            n_faces: 0,
        }
    }

    /// One step of a walk.
    pub open spec fn advance(self, turn: Turn, h: HalfedgeId) -> SMeshResult<HalfedgeId> {
        match turn {
            Turn::Ccw => self.ccw(h),
            Turn::Cw => self.cw(h),
            Turn::Next => self.he_next(h),
        }
    }

    /// The halfedges that a walk visits from `cur` on: `cur` itself, then
    /// what each step gives, until a step fails or gives `start` again, or
    /// `fuel` halfedges were visited.
    pub open spec fn orbit_from(
        self,
        turn: Turn,
        start: HalfedgeId,
        cur: HalfedgeId,
        fuel: nat,
    ) -> Seq<HalfedgeId>
        decreases fuel,
    {
        if fuel == 0 {
            Seq::empty()
        } else {
            match self.advance(turn, cur) {
                Ok(nx) => if nx == start {
                    seq![cur]
                } else {
                    seq![cur] + self.orbit_from(turn, start, nx, (fuel - 1) as nat)
                },
                Err(_) => seq![cur],
            }
        }
    }

    /// The ring of a halfedge: the walk from it until it comes back. A
    /// halfedge that is not live has an empty ring, and no ring is longer
    /// than the number of live halfedges, so that a walk which never comes
    /// back is cut off there.
    pub open spec fn orbit(self, turn: Turn, start: HalfedgeId) -> Seq<HalfedgeId> {
        if self.halfedges.contains_key(start) {
            self.orbit_from(turn, start, start, self.n_halfedges)
        } else {
            Seq::empty()
        }
    }

    /// The vertices that the halfedges point to, up to the first halfedge
    /// that is not live.
    pub open spec fn targets(self, hs: Seq<HalfedgeId>) -> Seq<VertexId>
        decreases hs.len(),
    {
        if hs.len() == 0 {
            Seq::empty()
        } else {
            match self.he_vertex(hs[0]) {
                Ok(v) => seq![v] + self.targets(hs.drop_first()),
                Err(_) => Seq::empty(),
            }
        }
    }

    /// The faces of those halfedges that have one, in the same order.
    pub open spec fn faces_of(self, hs: Seq<HalfedgeId>) -> Seq<FaceId>
        decreases hs.len(),
    {
        if hs.len() == 0 {
            Seq::empty()
        } else {
            match self.he_face(hs[0]) {
                Ok(f) => seq![f] + self.faces_of(hs.drop_first()),
                Err(_) => self.faces_of(hs.drop_first()),
            }
        }
    }

    /// How many of the halfedges are on the boundary.
    pub open spec fn boundary_count(self, hs: Seq<HalfedgeId>) -> nat
        decreases hs.len(),
    {
        if hs.len() == 0 {
            0
        } else {
            (if self.he_is_boundary(hs[0]) {
                1nat
            } else {
                0nat
            }) + self.boundary_count(hs.drop_first())
        }
    }

    /// The halfedges that leave a vertex, from the stored one on, counter-
    /// clockwise. Empty for a vertex that has none.
    pub open spec fn vertex_halfedges(self, v: VertexId) -> Seq<HalfedgeId> {
        match self.vertex_halfedge(v) {
            Ok(h) => self.orbit(Turn::Ccw, h),
            Err(_) => Seq::empty(),
        }
    }

    /// The neighbours of a vertex.
    pub open spec fn vertex_vertices(self, v: VertexId) -> Seq<VertexId> {
        self.targets(self.vertex_halfedges(v))
    }

    /// The faces around a vertex.
    pub open spec fn vertex_faces(self, v: VertexId) -> Seq<FaceId> {
        self.faces_of(self.vertex_halfedges(v))
    }

    /// The halfedges of a face's loop, from the stored one on.
    pub open spec fn face_halfedges(self, f: FaceId) -> Seq<HalfedgeId> {
        match self.face_halfedge(f) {
            Ok(h) => self.orbit(Turn::Next, h),
            Err(_) => Seq::empty(),
        }
    }

    /// The corners of a face, in winding order.
    pub open spec fn face_vertices(self, f: FaceId) -> Seq<VertexId> {
        self.targets(self.face_halfedges(f))
    }

    /// The number of neighbours of a vertex.
    pub open spec fn vertex_valence(self, v: VertexId) -> nat {
        self.vertex_vertices(v).len()
    }

    /// The number of corners of a face.
    pub open spec fn face_valence(self, f: FaceId) -> nat {
        self.face_vertices(f).len()
    }

    /// A vertex is on the boundary when it has no ring of halfedges, or one
    /// of the halfedges that leave it is on the boundary.
    pub open spec fn vertex_is_boundary(self, v: VertexId) -> bool {
        self.vertex_halfedges(v).len() == 0 || self.boundary_count(self.vertex_halfedges(v)) > 0
    }

    /// A vertex is isolated when no outgoing halfedge can be read from it.
    pub open spec fn vertex_is_isolated(self, v: VertexId) -> bool {
        self.vertex_halfedge(v) is Err
    }

    /// A vertex is manifold when fewer than two of the halfedges that leave
    /// it are on the boundary.
    pub open spec fn vertex_is_manifold(self, v: VertexId) -> bool {
        self.boundary_count(self.vertex_halfedges(v)) < 2
    }

    /// The search of `halfedge_to` from `cur` on: the first halfedge on the
    /// clockwise walk that points to `target`.
    pub open spec fn seek(
        self,
        start: HalfedgeId,
        cur: HalfedgeId,
        target: VertexId,
        fuel: nat,
    ) -> SMeshResult<HalfedgeId>
        decreases fuel,
    {
        if fuel == 0 {
            Err(SMeshError::CustomError(MSG_NO_CONNECTION))
        } else {
            match self.he_vertex(cur) {
                Err(e) => Err(e),
                Ok(d) => if d == target {
                    Ok(cur)
                } else {
                    match self.cw(cur) {
                        Err(e) => Err(e),
                        Ok(nx) => if nx == start {
                            Err(SMeshError::CustomError(MSG_NO_CONNECTION))
                        } else {
                            self.seek(start, nx, target, (fuel - 1) as nat)
                        },
                    }
                },
            }
        }
    }

    /// The halfedge from `v0` to `v1`.
    pub open spec fn halfedge_to(self, v0: VertexId, v1: VertexId) -> SMeshResult<HalfedgeId> {
        match self.vertex_halfedge(v0) {
            Err(e) => Err(e),
            Ok(h) => if v0 == v1 {
                Err(SMeshError::CustomError(MSG_SAME_VERTEX))
            } else {
                self.seek(h, h, v1, self.n_halfedges)
            },
        }
    }

    /// The search of the boundary adjustment from `cur` on: the first
    /// boundary halfedge on the clockwise walk, or none when the walk comes
    /// back to `start` first.
    pub open spec fn find_boundary(
        self,
        start: HalfedgeId,
        cur: HalfedgeId,
        fuel: nat,
    ) -> SMeshResult<Option<HalfedgeId>>
        decreases fuel,
    {
        if fuel == 0 {
            Ok(None)
        } else if self.he_is_boundary(cur) {
            Ok(Some(cur))
        } else {
            match self.cw(cur) {
                Err(e) => Err(e),
                Ok(nx) => if nx == start {
                    Ok(None)
                } else {
                    self.find_boundary(start, nx, (fuel - 1) as nat)
                },
            }
        }
    }
}

} // verus!
