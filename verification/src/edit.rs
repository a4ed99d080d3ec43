use vstd::prelude::*;
use crate::error::{SMeshError, SMeshResult};
use crate::graph::Graph;
use crate::mesh_elements::{Face, FaceId, Halfedge, HalfedgeId, Vertex, VertexId};

verus! {

/// An edit under way: the graph as the steps so far have left it, and the
/// error of the first step that failed. Once a step has failed, every later
/// step leaves the edit as it is, so a chain of steps says what a function
/// that stops at its first error has done to the graph.
pub struct Edit {
    pub g: Graph,
    pub err: Option<SMeshError>,
}

impl Edit {
    /// The edit that has done nothing yet.
    pub open spec fn of(g: Graph) -> Edit {
        Edit { g, err: None }
    }

    /// The edit that left the graph `g` and ended with the result `r`.
    pub open spec fn after<T>(g: Graph, r: SMeshResult<T>) -> Edit {
        Edit {
            g,
            err: match r {
                Ok(_) => None,
                Err(e) => Some(e),
            },
        }
    }

    pub open spec fn is_ok(self) -> bool {
        self.err is None
    }

    /// The result of an edit that hands back `value` on success.
    pub open spec fn result<T>(self, value: T) -> SMeshResult<T> {
        match self.err {
            None => Ok(value),
            Some(e) => Err(e),
        }
    }

    /// Fails with `e`, unless the edit has failed before.
    pub open spec fn fail(self, e: SMeshError) -> Edit {
        if self.err is Some {
            self
        } else {
            Edit { g: self.g, err: Some(e) }
        }
    }

    /// Fails with the error of `r`, if it is one.
    pub open spec fn check<T>(self, r: SMeshResult<T>) -> Edit {
        match r {
            Ok(_) => self,
            Err(e) => self.fail(e),
        }
    }

    /// Overwrites the record of a live vertex.
    pub open spec fn put_vert(self, v: VertexId, rec: Vertex) -> Edit {
        if self.err is Some {
            self
        } else if self.g.vertices.contains_key(v) {
            Edit::of(self.g.with_vertex(v, rec))
        } else {
            self.fail(SMeshError::VertexNotFound(v))
        }
    }

    /// Overwrites the record of a live halfedge.
    pub open spec fn put_he(self, h: HalfedgeId, rec: Halfedge) -> Edit {
        if self.err is Some {
            self
        } else if self.g.halfedges.contains_key(h) {
            Edit::of(self.g.with_halfedge(h, rec))
        } else {
            self.fail(SMeshError::HalfedgeNotFound(h))
        }
    }

    /// Overwrites the record of a live face.
    pub open spec fn put_face(self, f: FaceId, rec: Face) -> Edit {
        if self.err is Some {
            self
        } else if self.g.faces.contains_key(f) {
            Edit::of(self.g.with_face(f, rec))
        } else {
            self.fail(SMeshError::FaceNotFound(f))
        }
    }

    /// Stores the outgoing halfedge of a vertex.
    pub open spec fn set_vertex_halfedge(self, v: VertexId, h: Option<HalfedgeId>) -> Edit {
        self.put_vert(v, Vertex { halfedge: h })
    }

    /// Stores the halfedge of a face.
    pub open spec fn set_face_halfedge(self, f: FaceId, h: Option<HalfedgeId>) -> Edit {
        self.put_face(f, Face { halfedge: h })
    }

    /// Stores the vertex that a halfedge points to.
    pub open spec fn set_vertex(self, h: HalfedgeId, v: VertexId) -> Edit {
        if self.err is Some {
            self
        } else {
            match self.g.he(h) {
                Err(e) => self.fail(e),
                Ok(rec) => self.put_he(h, Halfedge { vertex: v, ..rec }),
            }
        }
    }

    /// Stores the face of a halfedge.
    pub open spec fn set_face(self, h: HalfedgeId, f: Option<FaceId>) -> Edit {
        if self.err is Some {
            self
        } else {
            match self.g.he(h) {
                Err(e) => self.fail(e),
                Ok(rec) => self.put_he(h, Halfedge { face: f, ..rec }),
            }
        }
    }

    /// Stores only the `next` field of a halfedge.
    pub open spec fn set_next_field(self, h: HalfedgeId, next: Option<HalfedgeId>) -> Edit {
        if self.err is Some {
            self
        } else {
            match self.g.he(h) {
                Err(e) => self.fail(e),
                Ok(rec) => self.put_he(h, Halfedge { next, ..rec }),
            }
        }
    }

    /// Stores only the `prev` field of a halfedge.
    pub open spec fn set_prev_field(self, h: HalfedgeId, prev: Option<HalfedgeId>) -> Edit {
        if self.err is Some {
            self
        } else {
            match self.g.he(h) {
                Err(e) => self.fail(e),
                Ok(rec) => self.put_he(h, Halfedge { prev, ..rec }),
            }
        }
    }

    /// Stores only the `opposite` field of a halfedge.
    pub open spec fn set_opposite_field(self, h: HalfedgeId, o: Option<HalfedgeId>) -> Edit {
        if self.err is Some {
            self
        } else {
            match self.g.he(h) {
                Err(e) => self.fail(e),
                Ok(rec) => self.put_he(h, Halfedge { opposite: o, ..rec }),
            }
        }
    }

    /// Makes `next` follow `h`: stores it as the next of `h`, and `h` as its
    /// previous.
    pub open spec fn set_next(self, h: HalfedgeId, next: Option<HalfedgeId>) -> Edit {
        match next {
            None => self.set_next_field(h, None),
            Some(n) => self.set_next_field(h, Some(n)).set_prev_field(n, Some(h)),
        }
    }

    /// Makes `prev` precede `h`: stores it as the previous of `h`, and `h`
    /// as its next.
    pub open spec fn set_prev(self, h: HalfedgeId, prev: Option<HalfedgeId>) -> Edit {
        match prev {
            None => self.set_prev_field(h, None),
            Some(p) => self.set_prev_field(h, Some(p)).set_next_field(p, Some(h)),
        }
    }

    /// Makes two halfedges each other's opposite.
    pub open spec fn set_opposite(self, h: HalfedgeId, o: HalfedgeId) -> Edit {
        self.set_opposite_field(h, Some(o)).set_opposite_field(o, Some(h))
    }

    /// Removes a vertex record. Nothing that refers to it is touched.
    pub open spec fn drop_vertex(self, v: VertexId) -> Edit {
        if self.err is Some {
            self
        } else {
            Edit::of(self.g.minus_vertex(v))
        }
    }

    /// Removes a face record. Nothing that refers to it is touched.
    pub open spec fn drop_face(self, f: FaceId) -> Edit {
        if self.err is Some {
            self
        } else {
            Edit::of(self.g.minus_face(f))
        }
    }

    /// Removes a halfedge and the halfedge it names as its opposite.
    pub open spec fn drop_edge(self, h: HalfedgeId) -> Edit {
        if self.err is Some {
            self
        } else if self.g.halfedges.contains_key(h) {
            match self.g.halfedges[h].opposite {
                Some(o) => Edit::of(self.g.minus_halfedge(h).minus_halfedge(o)),
                None => Edit::of(self.g.minus_halfedge(h)),
            }
        } else {
            self
        }
    }

    /// Adds the two halfedges of an edge between `v0` and `v1` under the
    /// identifiers `h0` (towards `v1`) and `h1` (towards `v0`). They are each
    /// other's opposite and linked to nothing else.
    pub open spec fn add_edge(self, v0: VertexId, v1: VertexId, h0: HalfedgeId, h1: HalfedgeId) -> Edit {
        if self.err is Some {
            self
        } else {
            Edit::of(
                self.g.plus_halfedge(
                    h0,
                    Halfedge { vertex: v1, face: None, opposite: Some(h1), prev: None, next: None },
                ).plus_halfedge(
                    h1,
                    Halfedge { vertex: v0, face: None, opposite: Some(h0), prev: None, next: None },
                ),
            )
        }
    }

    /// Adds an isolated vertex under the identifier `v`.
    pub open spec fn add_vertex(self, v: VertexId) -> Edit {
        if self.err is Some {
            self
        } else {
            Edit::of(self.g.plus_vertex(v, Vertex { halfedge: None }))
        }
    }

    /// Adds a face under the identifier `f`.
    pub open spec fn add_face_record(self, f: FaceId, h: Option<HalfedgeId>) -> Edit {
        if self.err is Some {
            self
        } else {
            Edit::of(self.g.plus_face(f, Face { halfedge: h }))
        }
    }

    /// Makes the stored outgoing halfedge of a vertex a boundary one, if the
    /// clockwise walk from the stored one meets any before it comes back.
    pub open spec fn adjust_outgoing_halfedge(self, v: VertexId) -> Edit {
        if self.err is Some {
            self
        } else {
            match self.g.vertex_halfedge(v) {
                Err(e) => self.fail(e),
                Ok(h0) => match self.g.find_boundary(h0, h0, self.g.n_halfedges) {
                    Err(e) => self.fail(e),
                    Ok(None) => self,
                    Ok(Some(h)) => self.set_vertex_halfedge(v, Some(h)),
                },
            }
        }
    }
}

} // verus!
