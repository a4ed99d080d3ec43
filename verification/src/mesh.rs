use vstd::prelude::*;
use crate::attribute::{
    point_entries, point_place, point_put, point_set, points_clone, points_get, points_insert,
    points_new, points_store, uv_entries, uv_place, uvs_store,
    uv_put, uvs_clone, uvs_get, uvs_insert, uvs_new, AttrMap, Point2, Point3,
};
use crate::connectivity::{Connectivity, Room};
use crate::edit::Edit;
use crate::error::{
    SMeshError, SMeshResult, MSG_NO_FACE_NORMAL, MSG_NO_FACE_NORMALS, MSG_NO_NORMALS,
    MSG_NO_POSITION, MSG_NO_UV, MSG_NO_UVS, MSG_NO_VERTEX_NORMAL,
};
use crate::graph::Graph;
use crate::mesh_elements::{slot_of, FaceId, HalfedgeId, Vertex, VertexId};

verus! {

/// The attributes of a mesh as a mathematical value: each map by raw
/// identifier, the optional ones absent until something is stored in them.
pub struct Attributes {
    pub positions: Map<u64, Point3>,
    pub face_normals: Option<Map<u64, Point3>>,
    pub vertex_normals: Option<Map<u64, Point3>>,
    pub uvs: Option<Map<u64, Point2>>,
}

/// A polygon mesh: halfedge connectivity, and the attributes attached to its
/// vertices, faces and halfedges.
pub struct SMesh {
    pub connectivity: Connectivity,
    /// The position of each vertex.
    pub positions: AttrMap<Point3>,
    /// One normal for each face.
    pub face_normals: Option<AttrMap<Point3>>,
    /// One normal for each vertex.
    pub vertex_normals: Option<AttrMap<Point3>>,
    /// One texture coordinate for each halfedge, so that a seam can run
    /// along an edge.
    pub uvs: Option<AttrMap<Point2>>,
}

impl SMesh {
    /// The connectivity of the mesh.
    pub open spec fn graph(&self) -> Graph {
        self.connectivity@
    }

    /// The attributes of the mesh.
    pub open spec fn attributes(&self) -> Attributes {
        Attributes {
            positions: point_entries(self.positions),
            face_normals: match self.face_normals {
                Some(m) => Some(point_entries(m)),
                None => None,
            },
            vertex_normals: match self.vertex_normals {
                Some(m) => Some(point_entries(m)),
                None => None,
            },
            uvs: match self.uvs {
                Some(m) => Some(uv_entries(m)),
                None => None,
            },
        }
    }

    /// What reading the position of a vertex gives.
    pub open spec fn position_of(&self, v: VertexId) -> SMeshResult<Point3> {
        if self.attributes().positions.contains_key(v@) {
            Ok(self.attributes().positions[v@])
        } else {
            Err(SMeshError::CustomError(MSG_NO_POSITION))
        }
    }

    /// What reading the normal of a vertex gives.
    pub open spec fn vertex_normal_of(&self, v: VertexId) -> SMeshResult<Point3> {
        match self.attributes().vertex_normals {
            None => Err(SMeshError::CustomError(MSG_NO_NORMALS)),
            Some(m) => if m.contains_key(v@) {
                Ok(m[v@])
            } else {
                Err(SMeshError::CustomError(MSG_NO_VERTEX_NORMAL))
            },
        }
    }

    /// What reading the normal of a face gives.
    pub open spec fn face_normal_of(&self, f: FaceId) -> SMeshResult<Point3> {
        match self.attributes().face_normals {
            None => Err(SMeshError::CustomError(MSG_NO_FACE_NORMALS)),
            Some(m) => if m.contains_key(f@) {
                Ok(m[f@])
            } else {
                Err(SMeshError::CustomError(MSG_NO_FACE_NORMAL))
            },
        }
    }

    /// What reading the texture coordinate of a halfedge gives.
    pub open spec fn uv_of(&self, h: HalfedgeId) -> SMeshResult<Point2> {
        match self.attributes().uvs {
            None => Err(SMeshError::CustomError(MSG_NO_UVS)),
            Some(m) => if m.contains_key(h@) {
                Ok(m[h@])
            } else {
                Err(SMeshError::CustomError(MSG_NO_UV))
            },
        }
    }

    /// The attributes of a mesh in which nothing is stored yet.
    pub open spec fn fresh_attributes() -> Attributes {
        Attributes {
            positions: Map::empty(),
            face_normals: None,
            vertex_normals: None,
            uvs: None,
        }
    }

    /// How many more records the mesh can take.
    pub open spec fn room(&self) -> Room {
        self.connectivity.room()
    }

    /// Whether the counts that the mesh keeps show room for that many new
    /// records of each kind. Where they do, and the counts were kept, there
    /// is that much room.
    pub fn has_room(&self, vertices: usize, halfedges: usize, faces: usize) -> (r: bool)
        ensures
            r == self.connectivity.counted_room().covers(
                vertices as int,
                halfedges as int,
                faces as int,
            ),
            r && self.room().tallied ==> self.room().covers(
                vertices as int,
                halfedges as int,
                faces as int,
            ),
    {
        self.connectivity.has_room(vertices, halfedges, faces)
    }

    /// A mesh without vertices, halfedges or faces.
    pub fn new() -> (mesh: Self)
        ensures
            mesh.graph() == Graph::empty(),
            mesh.attributes() == SMesh::fresh_attributes(),
            mesh.room().covers(u32::MAX - 1, u32::MAX - 1, u32::MAX - 1),
            mesh.room().tallied,
    {
        SMesh {
            connectivity: Connectivity::new(),
            positions: points_new(),
            face_normals: None,
            vertex_normals: None,
            uvs: None,
        }
    }

    /// The identifiers of the live vertices, by rising slot index.
    pub fn vertices(&self) -> (ids: Vec<VertexId>)
        ensures
            ids@.len() == self.graph().n_vertices,
            forall|id: VertexId| ids@.contains(id) ==> self.graph().vertices.contains_key(id),
            forall|id: VertexId| self.graph().vertices.contains_key(id) ==> ids@.contains(id),
            forall|i: int, j: int|
                0 <= i < j < ids@.len() ==> slot_of((#[trigger] ids@[i])@) < slot_of(
                    (#[trigger] ids@[j])@,
                ),
    {
        self.connectivity.vertex_ids()
    }

    /// The identifiers of the live halfedges, by rising slot index.
    pub fn halfedges(&self) -> (ids: Vec<HalfedgeId>)
        ensures
            ids@.len() == self.graph().n_halfedges,
            forall|id: HalfedgeId| ids@.contains(id) ==> self.graph().halfedges.contains_key(id),
            forall|id: HalfedgeId| self.graph().halfedges.contains_key(id) ==> ids@.contains(id),
            forall|i: int, j: int|
                0 <= i < j < ids@.len() ==> slot_of((#[trigger] ids@[i])@) < slot_of(
                    (#[trigger] ids@[j])@,
                ),
    {
        self.connectivity.halfedge_ids()
    }

    /// The identifiers of the live faces, by rising slot index.
    pub fn faces(&self) -> (ids: Vec<FaceId>)
        ensures
            ids@.len() == self.graph().n_faces,
            forall|id: FaceId| ids@.contains(id) ==> self.graph().faces.contains_key(id),
            forall|id: FaceId| self.graph().faces.contains_key(id) ==> ids@.contains(id),
            forall|i: int, j: int|
                0 <= i < j < ids@.len() ==> slot_of((#[trigger] ids@[i])@) < slot_of(
                    (#[trigger] ids@[j])@,
                ),
    {
        self.connectivity.face_ids()
    }

    /// Adds an isolated vertex at the given position.
    pub fn add_vertex(&mut self, position: Point3) -> (v: VertexId)
        requires
            old(self).room().vertices >= 1,
        ensures
            !old(self).graph().vertices.contains_key(v),
            old(self).graph().vertex_free(v),
            !old(self).connectivity.vertex_retired(v),
            Edit::of(old(self).graph()).add_vertex(v) == Edit::of(final(self).graph()),
            final(self).attributes() == (Attributes {
                positions: point_set(old(self).attributes().positions, v@, position),
                ..old(self).attributes()
            }),
            final(self).position_of(v) == Ok::<Point3, SMeshError>(position),
            forall|u: VertexId|
                old(self).graph().vertices.contains_key(u) ==> #[trigger] final(self).position_of(u)
                    == old(self).position_of(u),
            final(self).room().within(old(self).room(), 1, 0, 0),
            old(self).graph().paired() ==> final(self).graph().paired(),
            old(self).graph().in_order() ==> final(self).graph().in_order(),
    {
        let v = self.connectivity.insert_vert(Vertex { halfedge: None });
        points_store(&mut self.positions, v.as_ffi(), position);
        proof {
            if old(self).graph().in_order() {
                old(self).graph().law_new_vertex_stays_in_order(v);
            }
            if old(self).graph().paired() {
                assert forall|h: HalfedgeId| #[trigger] self.graph().paired_at(h) by {
                    assert(old(self).graph().paired_at(h));
                }
            }
        }
        v
    }

    /// Adds the two halfedges of an edge from `v0` to `v1`, each other's
    /// opposite and linked to nothing else: neither vertex learns of them.
    /// The first one points to `v1`.
    pub fn add_edge(&mut self, v0: VertexId, v1: VertexId) -> (hs: (HalfedgeId, HalfedgeId))
        requires
            old(self).room().halfedges >= 2,
        ensures
            !old(self).graph().halfedges.contains_key(hs.0),
            !old(self).graph().halfedges.contains_key(hs.1),
            hs.0 != hs.1,
            Edit::of(old(self).graph()).add_edge(v0, v1, hs.0, hs.1) == Edit::of(
                final(self).graph(),
            ),
            final(self).attributes() == old(self).attributes(),
            final(self).room().within(old(self).room(), 0, 2, 0),
            old(self).graph().paired() ==> final(self).graph().paired(),
    {
        proof {
            if self.graph().paired() {
                assert forall|h0: HalfedgeId, h1: HalfedgeId|
                    !self.graph().halfedges.contains_key(h0) && !self.graph().halfedges.contains_key(
                        h1,
                    ) && h0 != h1 implies (#[trigger] Edit::of(self.graph()).add_edge(
                    v0,
                    v1,
                    h0,
                    h1,
                )).g.paired() by {
                    crate::pairs::lemma_add_edge_paired(Edit::of(self.graph()), v0, v1, h0, h1);
                }
            }
        }
        self.connectivity.add_edge(v0, v1)
    }

    /// The position of a vertex.
    pub fn position(&self, v: VertexId) -> (r: SMeshResult<Point3>)
        ensures
            r == self.position_of(v),
    {
        match points_get(&self.positions, v.as_ffi()) {
            Some(p) => Ok(p),
            None => Err(SMeshError::CustomError(MSG_NO_POSITION)),
        }
    }

    /// Stores the position of a vertex that was just made, in place of
    /// whatever the map holds for earlier vertices of the same slot.
    pub(crate) fn place_new(&mut self, v: VertexId, position: Point3)
        requires
            slot_of(v@) != 0xFFFF_FFFF,
        ensures
            final(self).graph() == old(self).graph(),
            final(self).attributes() == (Attributes {
                positions: point_set(old(self).attributes().positions, v@, position),
                ..old(self).attributes()
            }),
            final(self).room() == old(self).room(),
    {
        points_store(&mut self.positions, v.as_ffi(), position);
    }

    /// Stores the position of a vertex. A live vertex stands there
    /// afterwards, and every other live vertex where it stood; for an
    /// identifier that is not live the map decides whether it takes the
    /// value.
    pub fn set_position(&mut self, v: VertexId, position: Point3)
        ensures
            final(self).graph() == old(self).graph(),
            final(self).attributes() == (Attributes {
                positions: point_place(
                    old(self).attributes().positions,
                    v@,
                    position,
                    old(self).graph().vertices.contains_key(v),
                ),
                ..old(self).attributes()
            }),
            old(self).graph().vertices.contains_key(v) ==> final(self).position_of(v) == Ok::<
                Point3,
                SMeshError,
            >(position),
            forall|u: VertexId|
                old(self).graph().vertices.contains_key(v) && old(self).graph().vertices.contains_key(
                    u,
                ) && u != v ==> #[trigger] final(self).position_of(u) == old(self).position_of(u),
            final(self).room() == old(self).room(),
    {
        if self.connectivity.holds_vertex(v) {
            points_store(&mut self.positions, v.as_ffi(), position);
        } else {
            points_insert(&mut self.positions, v.as_ffi(), position);
        }
    }

    /// The normal of a vertex.
    pub fn vertex_normal(&self, v: VertexId) -> (r: SMeshResult<Point3>)
        ensures
            r == self.vertex_normal_of(v),
    {
        match &self.vertex_normals {
            None => Err(SMeshError::CustomError(MSG_NO_NORMALS)),
            Some(m) => match points_get(m, v.as_ffi()) {
                Some(p) => Ok(p),
                None => Err(SMeshError::CustomError(MSG_NO_VERTEX_NORMAL)),
            },
        }
    }

    /// The normal of a face.
    pub fn face_normal(&self, f: FaceId) -> (r: SMeshResult<Point3>)
        ensures
            r == self.face_normal_of(f),
    {
        match &self.face_normals {
            None => Err(SMeshError::CustomError(MSG_NO_FACE_NORMALS)),
            Some(m) => match points_get(m, f.as_ffi()) {
                Some(p) => Ok(p),
                None => Err(SMeshError::CustomError(MSG_NO_FACE_NORMAL)),
            },
        }
    }

    /// The texture coordinate of a halfedge.
    pub fn uv(&self, h: HalfedgeId) -> (r: SMeshResult<Point2>)
        ensures
            r == self.uv_of(h),
    {
        match &self.uvs {
            None => Err(SMeshError::CustomError(MSG_NO_UVS)),
            Some(m) => match uvs_get(m, h.as_ffi()) {
                Some(p) => Ok(p),
                None => Err(SMeshError::CustomError(MSG_NO_UV)),
            },
        }
    }

    /// Stores the normal of a vertex, in a new map if the mesh has none yet.
    /// The normal of a live vertex can be read afterwards, and every other
    /// live vertex has the normal it had.
    pub fn set_vertex_normal(&mut self, v: VertexId, normal: Point3)
        ensures
            final(self).graph() == old(self).graph(),
            final(self).attributes() == (Attributes {
                vertex_normals: Some(
                    point_place(
                        match old(self).attributes().vertex_normals {
                            Some(m) => m,
                            None => Map::empty(),
                        },
                        v@,
                        normal,
                        old(self).graph().vertices.contains_key(v),
                    ),
                ),
                ..old(self).attributes()
            }),
            old(self).graph().vertices.contains_key(v) ==> final(self).vertex_normal_of(v) == Ok::<
                Point3,
                SMeshError,
            >(normal),
            forall|u: VertexId|
                old(self).graph().vertices.contains_key(v) && old(self).graph().vertices.contains_key(
                    u,
                ) && u != v && old(self).attributes().vertex_normals is Some
                    ==> #[trigger] final(self).vertex_normal_of(u) == old(self).vertex_normal_of(u),
            final(self).room() == old(self).room(),
    {
        let live = self.connectivity.holds_vertex(v);
        let mut m = match self.vertex_normals.take() {
            Some(m) => m,
            None => points_new(),
        };
        if live {
            points_store(&mut m, v.as_ffi(), normal);
        } else {
            points_insert(&mut m, v.as_ffi(), normal);
        }
        self.vertex_normals = Some(m);
    }

    /// Stores the normal of a vertex as the map takes it, in a new map if
    /// the mesh has none yet.
    pub(crate) fn copy_vertex_normal(&mut self, v: VertexId, normal: Point3)
        ensures
            final(self).graph() == old(self).graph(),
            final(self).attributes() == (Attributes {
                vertex_normals: Some(
                    point_put(
                        match old(self).attributes().vertex_normals {
                            Some(m) => m,
                            None => Map::empty(),
                        },
                        v@,
                        normal,
                    ),
                ),
                ..old(self).attributes()
            }),
            final(self).room() == old(self).room(),
    {
        let mut m = match self.vertex_normals.take() {
            Some(m) => m,
            None => points_new(),
        };
        points_insert(&mut m, v.as_ffi(), normal);
        self.vertex_normals = Some(m);
    }

    /// Stores the normal of a face, in a new map if the mesh has none yet.
    /// The normal of a live face can be read afterwards, and every other
    /// live face has the normal it had.
    pub fn set_face_normal(&mut self, f: FaceId, normal: Point3)
        ensures
            final(self).graph() == old(self).graph(),
            final(self).attributes() == (Attributes {
                face_normals: Some(
                    point_place(
                        match old(self).attributes().face_normals {
                            Some(m) => m,
                            None => Map::empty(),
                        },
                        f@,
                        normal,
                        old(self).graph().faces.contains_key(f),
                    ),
                ),
                ..old(self).attributes()
            }),
            old(self).graph().faces.contains_key(f) ==> final(self).face_normal_of(f) == Ok::<
                Point3,
                SMeshError,
            >(normal),
            forall|u: FaceId|
                old(self).graph().faces.contains_key(f) && old(self).graph().faces.contains_key(u)
                    && u != f && old(self).attributes().face_normals is Some
                    ==> #[trigger] final(self).face_normal_of(u) == old(self).face_normal_of(u),
            final(self).room() == old(self).room(),
    {
        let live = self.connectivity.holds_face(f);
        let mut m = match self.face_normals.take() {
            Some(m) => m,
            None => points_new(),
        };
        if live {
            points_store(&mut m, f.as_ffi(), normal);
        } else {
            points_insert(&mut m, f.as_ffi(), normal);
        }
        self.face_normals = Some(m);
    }

    /// Stores the normal of a face as the map takes it, in a new map if the
    /// mesh has none yet.
    pub(crate) fn copy_face_normal(&mut self, f: FaceId, normal: Point3)
        ensures
            final(self).graph() == old(self).graph(),
            final(self).attributes() == (Attributes {
                face_normals: Some(
                    point_put(
                        match old(self).attributes().face_normals {
                            Some(m) => m,
                            None => Map::empty(),
                        },
                        f@,
                        normal,
                    ),
                ),
                ..old(self).attributes()
            }),
            final(self).room() == old(self).room(),
    {
        let mut m = match self.face_normals.take() {
            Some(m) => m,
            None => points_new(),
        };
        points_insert(&mut m, f.as_ffi(), normal);
        self.face_normals = Some(m);
    }

    /// Stores the texture coordinate of a halfedge, in a new map if the mesh
    /// has none yet. The texture coordinate of a live halfedge can be read
    /// afterwards, and every other live halfedge has the one it had.
    pub fn set_uv(&mut self, h: HalfedgeId, uv: Point2)
        ensures
            final(self).graph() == old(self).graph(),
            final(self).attributes() == (Attributes {
                uvs: Some(
                    uv_place(
                        match old(self).attributes().uvs {
                            Some(m) => m,
                            None => Map::empty(),
                        },
                        h@,
                        uv,
                        old(self).graph().halfedges.contains_key(h),
                    ),
                ),
                ..old(self).attributes()
            }),
            old(self).graph().halfedges.contains_key(h) ==> final(self).uv_of(h) == Ok::<
                Point2,
                SMeshError,
            >(uv),
            forall|u: HalfedgeId|
                old(self).graph().halfedges.contains_key(h) && old(self).graph().halfedges.contains_key(
                    u,
                ) && u != h && old(self).attributes().uvs is Some ==> #[trigger] final(self).uv_of(u)
                    == old(self).uv_of(u),
            final(self).room() == old(self).room(),
    {
        let live = self.connectivity.holds_halfedge(h);
        let mut m = match self.uvs.take() {
            Some(m) => m,
            None => uvs_new(),
        };
        if live {
            uvs_store(&mut m, h.as_ffi(), uv);
        } else {
            uvs_insert(&mut m, h.as_ffi(), uv);
        }
        self.uvs = Some(m);
    }

    /// Stores the texture coordinate of a halfedge as the map takes it, in a
    /// new map if the mesh has none yet.
    pub(crate) fn copy_uv(&mut self, h: HalfedgeId, uv: Point2)
        ensures
            final(self).graph() == old(self).graph(),
            final(self).attributes() == (Attributes {
                uvs: Some(
                    uv_put(
                        match old(self).attributes().uvs {
                            Some(m) => m,
                            None => Map::empty(),
                        },
                        h@,
                        uv,
                    ),
                ),
                ..old(self).attributes()
            }),
            final(self).room() == old(self).room(),
    {
        let mut m = match self.uvs.take() {
            Some(m) => m,
            None => uvs_new(),
        };
        uvs_insert(&mut m, h.as_ffi(), uv);
        self.uvs = Some(m);
    }

    /// Forgets every vertex normal.
    pub fn clear_vertex_normals(&mut self)
        ensures
            final(self).graph() == old(self).graph(),
            final(self).attributes() == (Attributes {
                vertex_normals: None,
                ..old(self).attributes()
            }),
            final(self).room() == old(self).room(),
    {
        self.vertex_normals = None;
    }

    /// Forgets every face normal.
    pub fn clear_face_normals(&mut self)
        ensures
            final(self).graph() == old(self).graph(),
            final(self).attributes() == (Attributes {
                face_normals: None,
                ..old(self).attributes()
            }),
            final(self).room() == old(self).room(),
    {
        self.face_normals = None;
    }

    /// Forgets every texture coordinate.
    pub fn clear_uvs(&mut self)
        ensures
            final(self).graph() == old(self).graph(),
            final(self).attributes() == (Attributes { uvs: None, ..old(self).attributes() }),
            final(self).room() == old(self).room(),
    {
        self.uvs = None;
    }

    /// A mesh of its own with the same connectivity and attributes.
    pub fn duplicate(&self) -> (mesh: Self)
        ensures
            mesh.graph() == self.graph(),
            mesh.attributes() == self.attributes(),
            mesh.room() == self.room(),
    {
        SMesh {
            connectivity: self.connectivity.duplicate(),
            positions: points_clone(&self.positions),
            face_normals: match &self.face_normals {
                Some(m) => Some(points_clone(m)),
                None => None,
            },
            vertex_normals: match &self.vertex_normals {
                Some(m) => Some(points_clone(m)),
                None => None,
            },
            uvs: match &self.uvs {
                Some(m) => Some(uvs_clone(m)),
                None => None,
            },
        }
    }
}

impl Clone for SMesh {
    fn clone(&self) -> (mesh: Self)
        ensures
            mesh.graph() == self.graph(),
            mesh.attributes() == self.attributes(),
            mesh.room() == self.room(),
    {
        self.duplicate()
    }
}

impl Default for SMesh {
    fn default() -> (mesh: Self)
        ensures
            mesh.graph() == Graph::empty(),
            mesh.attributes() == SMesh::fresh_attributes(),
            mesh.room().covers(u32::MAX - 1, u32::MAX - 1, u32::MAX - 1),
            mesh.room().tallied,
    {
        SMesh::new()
    }
}

} // verus!
