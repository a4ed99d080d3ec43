use vstd::prelude::*;
use crate::mesh_elements::{FaceId, HalfedgeId, VertexId};

verus! {

pub const MSG_SAME_VERTEX: &'static str = "HalfedgeTo: Inital and dst vertex are the same";

pub const MSG_NO_CONNECTION: &'static str = "HalfedgeTo: No connecting halfedge found";

pub const MSG_NO_POSITION: &'static str = "Vertex has no position attribute";

pub const MSG_NO_VERTEX_NORMAL: &'static str = "Vertex has no normal attribute";

pub const MSG_NO_NORMALS: &'static str = "No attribute map for normals exists";

pub const MSG_NO_UV: &'static str = "Vertex has no uv attribute";

pub const MSG_NO_UVS: &'static str = "No attribute map for uvs exists";

pub const MSG_NO_FACE_NORMAL: &'static str = "Face has no normal attribute";

pub const MSG_NO_FACE_NORMALS: &'static str = "No attribute map for face normals exists";

pub const MSG_NOT_BOUNDARY: &'static str = "Can only extrude boundary edges";

pub const MSG_NOT_A_CHAIN: &'static str = "Not an edge chain";

pub const MSG_NO_NEXT: &'static str = "Halfedge has no next";

/// What a query or an edit reports instead of a result. Every variant is
/// recoverable: it is returned as a value.
#[derive(Debug, Clone, Copy, PartialEq)]
pub enum SMeshError {
    /// The identifier names no live vertex.
    VertexNotFound(VertexId),
    /// The vertex is isolated.
    VertexHasNoHalfEdge(VertexId),
    /// The identifier names no live halfedge.
    HalfedgeNotFound(HalfedgeId),
    /// The halfedge lies on a boundary.
    HalfedgeHasNoFace(HalfedgeId),
    HalfedgeHasNoNext(HalfedgeId),
    HalfedgeHasNoPrev(HalfedgeId),
    HalfedgeHasNoOpposite(HalfedgeId),
    /// The identifier names no live face.
    FaceNotFound(FaceId),
    FaceHasNoHalfEdge(FaceId),
    /// The edit would break an invariant of the mesh.
    TopologyError,
    /// The query step does not apply to the kind of element it was given.
    UnsupportedOperation,
    DefaultError,
    /// A precondition of one operation, stated as a message.
    CustomError(&'static str),
}

pub type SMeshResult<T> = Result<T, SMeshError>;

} // verus!
