pub use crate::attribute::{Point2, Point3};
pub use crate::connectivity::Connectivity;
pub use crate::error::{SMeshError, SMeshResult};
pub use crate::mesh::SMesh;
pub use crate::mesh_elements::{Edge, Face, FaceId, Halfedge, HalfedgeId, Vertex, VertexId};
pub use crate::mesh_query::{MeshQueryBuilder, RunQuery, ToMeshQueryBuilder};
pub use crate::ops::{FaceIterators, FaceOps, HalfedgeOps, VertexIterators, VertexOps};
pub use crate::selection::{MeshSelection, MeshSelectionOps};
