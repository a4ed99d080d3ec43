use vstd::prelude::*;
use crate::arena::{
    Arena, vertex_entries, vertex_slots, vertices_new, vertices_insert, vertices_get, vertices_set, vertices_remove, vertices_clone, vertices_len, vertices_keys, halfedge_entries, halfedge_slots, halfedges_new, halfedges_insert, halfedges_get, halfedges_set, halfedges_remove, halfedges_clone, halfedges_len, halfedges_keys, face_entries, face_slots, faces_new, faces_insert, faces_get, faces_set, faces_remove, faces_clone, faces_len, faces_keys, face_generations, halfedge_generations,
    vertex_generations,
};
use crate::attribute::generation_of;
use crate::error::{SMeshError, SMeshResult, MSG_NO_CONNECTION, MSG_SAME_VERTEX};
use crate::edit::Edit;
use crate::graph::{Graph, Turn};
use crate::mesh_elements::{
    key_of, slot_of, Face, FaceId, Halfedge, HalfedgeId, Vertex, VertexId,
};

verus! {

/// How many more records of each kind the arenas can take before they run
/// out of slot indices, and whether the count that is kept of the slots in
/// use is no less than their number.
pub struct Room {
    pub vertices: int,
    pub halfedges: int,
    pub faces: int,
    pub tallied: bool,
}

impl Room {
    /// There is room for that many new records of each kind.
    pub open spec fn covers(self, vertices: int, halfedges: int, faces: int) -> bool {
        &&& self.vertices >= vertices
        &&& self.halfedges >= halfedges
        &&& self.faces >= faces
    }

    /// At most that many slots of each kind were taken since `before`, and
    /// the count of the slots was kept.
    pub open spec fn within(self, before: Room, vertices: int, halfedges: int, faces: int) -> bool {
        &&& self.vertices >= before.vertices - vertices
        &&& self.halfedges >= before.halfedges - halfedges
        &&& self.faces >= before.faces - faces
        &&& before.tallied ==> self.tallied
    }
}

/// The raw identifier was handed out once and removed since: its slot has
/// gone on to a later generation.
pub open spec fn retired(generations: Seq<u32>, raw: u64) -> bool {
    slot_of(raw) < generations.len() && generation_of(raw) < generations[slot_of(raw) as int]
}

/// The three arenas that hold the records of a mesh, and for each of them a
/// count that the slots it has in use do not exceed.
pub struct Connectivity {
    pub vertices: Arena<Vertex>,
    pub halfedges: Arena<Halfedge>,
    pub faces: Arena<Face>,
    pub vertex_bound: u32,
    pub halfedge_bound: u32,
    pub face_bound: u32,
}

impl View for Connectivity {
    type V = Graph;

    open spec fn view(&self) -> Graph {
        Graph {
            vertices: Map::new(
                |v: VertexId| vertex_entries(self.vertices).contains_key(v@),
                |v: VertexId| vertex_entries(self.vertices)[v@],
            ),
            halfedges: Map::new(
                |h: HalfedgeId| halfedge_entries(self.halfedges).contains_key(h@),
                |h: HalfedgeId| halfedge_entries(self.halfedges)[h@],
            ),
            faces: Map::new(
                |f: FaceId| face_entries(self.faces).contains_key(f@),
                |f: FaceId| face_entries(self.faces)[f@],
            ),
            n_vertices: vertex_entries(self.vertices).dom().len(),
            n_halfedges: halfedge_entries(self.halfedges).dom().len(),
            n_faces: face_entries(self.faces).dom().len(),
        }
    }
}

impl Connectivity {
    pub open spec fn room(&self) -> Room {
        Room {
            vertices: u32::MAX - vertex_slots(self.vertices),
            halfedges: u32::MAX - halfedge_slots(self.halfedges),
            faces: u32::MAX - face_slots(self.faces),
            tallied: vertex_slots(self.vertices) <= self.vertex_bound && halfedge_slots(
                self.halfedges,
            ) <= self.halfedge_bound && face_slots(self.faces) <= self.face_bound,
        }
    }

    /// The vertex was removed, and its slot has gone on to a later
    /// generation.
    pub open spec fn vertex_retired(&self, v: VertexId) -> bool {
        retired(vertex_generations(self.vertices), v@)
    }

    /// The halfedge was removed, and its slot has gone on to a later
    /// generation.
    pub open spec fn halfedge_retired(&self, h: HalfedgeId) -> bool {
        retired(halfedge_generations(self.halfedges), h@)
    }

    /// The face was removed, and its slot has gone on to a later generation.
    pub open spec fn face_retired(&self, f: FaceId) -> bool {
        retired(face_generations(self.faces), f@)
    }

    /// The room that the counts show: what is left of the slot indices if
    /// as many slots are in use as were counted.
    pub open spec fn counted_room(&self) -> Room {
        Room {
            vertices: u32::MAX - self.vertex_bound,
            halfedges: u32::MAX - self.halfedge_bound,
            faces: u32::MAX - self.face_bound,
            tallied: true,
        }
    }

    /// Whether the counts show room for that many new records of each kind.
    /// Where they do, and the counts were kept, there is that much room.
    pub fn has_room(&self, vertices: usize, halfedges: usize, faces: usize) -> (r: bool)
        ensures
            r == self.counted_room().covers(vertices as int, halfedges as int, faces as int),
            r && self.room().tallied ==> self.room().covers(
                vertices as int,
                halfedges as int,
                faces as int,
            ),
    {
        let v: u32 = u32::MAX - self.vertex_bound;
        let h: u32 = u32::MAX - self.halfedge_bound;
        let f: u32 = u32::MAX - self.face_bound;
        vertices <= v as usize && halfedges <= h as usize && faces <= f as usize
    }

    /// Connectivity without any record.
    pub fn new() -> (c: Self)
        ensures
            c@ == Graph::empty(),
            c.room().covers(u32::MAX - 1, u32::MAX - 1, u32::MAX - 1),
            c.room().tallied,
    {
        let c = Connectivity {
            vertices: vertices_new(),
            halfedges: halfedges_new(),
            faces: faces_new(),
            vertex_bound: 1,
            halfedge_bound: 1,
            face_bound: 1,
        };
        proof {
            assert(c@.vertices =~= Map::<VertexId, Vertex>::empty());
            assert(c@.halfedges =~= Map::<HalfedgeId, Halfedge>::empty());
            assert(c@.faces =~= Map::<FaceId, Face>::empty());
        }
        c
    }

    /// Whether the vertex is live. A live vertex has a slot of its own.
    pub fn holds_vertex(&self, v: VertexId) -> (r: bool)
        ensures
            r == self@.vertices.contains_key(v),
            r ==> self@.vertex_alone(v),
    {
        let found = vertices_get(&self.vertices, v.as_ffi());
        proof {
            if found is Some {
                assert forall|u: VertexId| #[trigger]
                    self@.vertices.contains_key(u) && slot_of(u@) == slot_of(v@) implies u == v by {
                    assert(vertex_entries(self.vertices).contains_key(u@));
                    VertexId::lemma_view_injective(u, v);
                }
            }
        }
        found.is_some()
    }

    /// Whether the halfedge is live. A live halfedge has a slot of its own.
    pub fn holds_halfedge(&self, h: HalfedgeId) -> (r: bool)
        ensures
            r == self@.halfedges.contains_key(h),
            r ==> self@.halfedge_alone(h),
    {
        let found = halfedges_get(&self.halfedges, h.as_ffi());
        proof {
            if found is Some {
                assert forall|u: HalfedgeId| #[trigger]
                    self@.halfedges.contains_key(u) && slot_of(u@) == slot_of(h@) implies u == h by {
                    assert(halfedge_entries(self.halfedges).contains_key(u@));
                    HalfedgeId::lemma_view_injective(u, h);
                }
            }
        }
        found.is_some()
    }

    /// Whether the face is live. A live face has a slot of its own.
    pub fn holds_face(&self, f: FaceId) -> (r: bool)
        ensures
            r == self@.faces.contains_key(f),
            r ==> self@.face_alone(f),
    {
        let found = faces_get(&self.faces, f.as_ffi());
        proof {
            if found is Some {
                assert forall|u: FaceId| #[trigger]
                    self@.faces.contains_key(u) && slot_of(u@) == slot_of(f@) implies u == f by {
                    assert(face_entries(self.faces).contains_key(u@));
                    FaceId::lemma_view_injective(u, f);
                }
            }
        }
        found.is_some()
    }

    /// The record of a vertex.
    pub fn vert(&self, v: VertexId) -> (r: SMeshResult<Vertex>)
        ensures
            r == self@.vert(v),
    {
        match vertices_get(&self.vertices, v.as_ffi()) {
            Some(rec) => Ok(rec),
            None => Err(SMeshError::VertexNotFound(v)),
        }
    }

    /// The record of a halfedge.
    pub fn he(&self, h: HalfedgeId) -> (r: SMeshResult<Halfedge>)
        ensures
            r == self@.he(h),
    {
        match halfedges_get(&self.halfedges, h.as_ffi()) {
            Some(rec) => Ok(rec),
            None => Err(SMeshError::HalfedgeNotFound(h)),
        }
    }

    /// The record of a face.
    pub fn face(&self, f: FaceId) -> (r: SMeshResult<Face>)
        ensures
            r == self@.face(f),
    {
        match faces_get(&self.faces, f.as_ffi()) {
            Some(rec) => Ok(rec),
            None => Err(SMeshError::FaceNotFound(f)),
        }
    }

    /// Overwrites the record of a live vertex.
    pub fn put_vert(&mut self, id: VertexId, rec: Vertex) -> (r: SMeshResult<()>)
        ensures
            old(self)@.vertices.contains_key(id) ==> r is Ok && final(self)@ == old(self)@.with_vertex(
                id,
                rec,
            ),
            !old(self)@.vertices.contains_key(id) ==> r == Err::<(), SMeshError>(
                SMeshError::VertexNotFound(id),
            ) && final(self)@ == old(self)@,
            final(self).room() == old(self).room(),
    {
        let live = vertices_set(&mut self.vertices, id.as_ffi(), rec);
        proof {
            if live {
                assert forall|w: VertexId| w@ == id@ implies w == id by {
                    VertexId::lemma_view_injective(w, id);
                }
                assert(self@.vertices =~= old(self)@.vertices.insert(id, rec));
            } else {
                assert(self@.vertices =~= old(self)@.vertices);
            }
        }
        if live {
            Ok(())
        } else {
            Err(SMeshError::VertexNotFound(id))
        }
    }

    /// Stores a new vertex record and hands out its identifier, which was not
    /// live before.
    pub fn insert_vert(&mut self, rec: Vertex) -> (id: VertexId)
        requires
            old(self).room().vertices >= 1,
        ensures
            !old(self)@.vertices.contains_key(id),
            old(self)@.vertex_free(id),
            !old(self).vertex_retired(id),
            forall|w: VertexId| old(self).vertex_retired(w) ==> #[trigger] final(self).vertex_retired(w),
            final(self)@ == old(self)@.plus_vertex(id, rec),
            final(self).room().within(old(self).room(), 1, 0, 0),
    {
        let raw = vertices_insert(&mut self.vertices, rec);
        if self.vertex_bound < u32::MAX {
            self.vertex_bound += 1;
        }
        let id = VertexId::from_ffi(raw);
        proof {
            assert(id@ == raw);
            assert(slot_of(raw) != 0xFFFF_FFFF);
            assert forall|u: VertexId| #[trigger] old(self)@.vertices.contains_key(u) implies slot_of(
                u@,
            ) != slot_of(id@) by {
                assert(vertex_entries(old(self).vertices).contains_key(u@));
            }
            assert forall|w: VertexId| w@ == id@ implies w == id by {
                VertexId::lemma_view_injective(w, id);
            }
            assert(self@.vertices =~= old(self)@.vertices.insert(id, rec));
        }
        id
    }

    /// Takes the record of a vertex out of the arena. Every copy of the
    /// identifier finds nothing from then on: it is retired, and no later
    /// insertion hands a retired identifier out, until the generations of
    /// its slot have run out and start again.
    pub fn remove_vert(&mut self, id: VertexId) -> (r: Option<Vertex>)
        ensures
            r == (if old(self)@.vertices.contains_key(id) {
                Some(old(self)@.vertices[id])
            } else {
                None
            }),
            final(self)@ == old(self)@.minus_vertex(id),
            final(self).room() == old(self).room(),
            r is Some && generation_of(id@) < u32::MAX ==> final(self).vertex_retired(id),
            forall|w: VertexId|
                old(self).vertex_retired(w) && !(r is Some && slot_of(w@) == slot_of(id@)
                    && generation_of(id@) == u32::MAX) ==> #[trigger] final(self).vertex_retired(w),
    {
        let r = vertices_remove(&mut self.vertices, id.as_ffi());
        proof {
            assert forall|w: VertexId| w@ == id@ implies w == id by {
                VertexId::lemma_view_injective(w, id);
            }
            if r.is_some() {
                assert(self@.vertices =~= old(self)@.vertices.remove(id));
            } else {
                assert(self@.vertices =~= old(self)@.vertices);
            }
        }
        r
    }

    /// The number of live vertices.
    pub fn n_vertices(&self) -> (n: usize)
        ensures
            n == self@.n_vertices,
    {
        vertices_len(&self.vertices)
    }

    /// The identifiers of the live vertices, each once, by rising slot index.
    pub fn vertex_ids(&self) -> (ids: Vec<VertexId>)
        ensures
            ids@.len() == self@.n_vertices,
            forall|id: VertexId| ids@.contains(id) ==> self@.vertices.contains_key(id),
            forall|id: VertexId| self@.vertices.contains_key(id) ==> ids@.contains(id),
            forall|i: int, j: int|
                0 <= i < j < ids@.len() ==> slot_of((#[trigger] ids@[i])@) < slot_of(
                    (#[trigger] ids@[j])@,
                ),
    {
        let keys = vertices_keys(&self.vertices);
        let mut ids: Vec<VertexId> = Vec::new();
        let mut i: usize = 0;
        while i < keys.len()
            invariant
                0 <= i <= keys.len(),
                ids@.len() == i,
                forall|k: int| 0 <= k < i ==> (#[trigger] ids@[k])@ == keys@[k],
                forall|k: int| 0 <= k < keys@.len() ==> key_of(#[trigger] keys@[k]) == keys@[k],
            decreases keys.len() - i,
        {
            let id = VertexId::from_ffi(keys[i]);
            ids.push(id);
            i += 1;
        }
        proof {
            assert forall|id: VertexId| ids@.contains(id) implies self@.vertices.contains_key(id) by {
                let k = choose|k: int| 0 <= k < ids@.len() && ids@[k] == id;
                assert(keys@.contains(keys@[k]));
            }
            assert forall|id: VertexId| self@.vertices.contains_key(id) implies ids@.contains(id) by {
                assert(keys@.contains(id@));
                let k = choose|k: int| 0 <= k < keys@.len() && keys@[k] == id@;
                VertexId::lemma_view_injective(ids@[k], id);
            }
        }
        ids
    }

    /// Overwrites the record of a live halfedge.
    pub fn put_he(&mut self, id: HalfedgeId, rec: Halfedge) -> (r: SMeshResult<()>)
        ensures
            old(self)@.halfedges.contains_key(id) ==> r is Ok && final(self)@ == old(self)@.with_halfedge(
                id,
                rec,
            ),
            !old(self)@.halfedges.contains_key(id) ==> r == Err::<(), SMeshError>(
                SMeshError::HalfedgeNotFound(id),
            ) && final(self)@ == old(self)@,
            final(self).room() == old(self).room(),
    {
        let live = halfedges_set(&mut self.halfedges, id.as_ffi(), rec);
        proof {
            if live {
                assert forall|w: HalfedgeId| w@ == id@ implies w == id by {
                    HalfedgeId::lemma_view_injective(w, id);
                }
                assert(self@.halfedges =~= old(self)@.halfedges.insert(id, rec));
            } else {
                assert(self@.halfedges =~= old(self)@.halfedges);
            }
        }
        if live {
            Ok(())
        } else {
            Err(SMeshError::HalfedgeNotFound(id))
        }
    }

    /// Stores a new halfedge record and hands out its identifier, which was not
    /// live before.
    pub fn insert_he(&mut self, rec: Halfedge) -> (id: HalfedgeId)
        requires
            old(self).room().halfedges >= 1,
        ensures
            !old(self)@.halfedges.contains_key(id),
            !old(self).halfedge_retired(id),
            forall|w: HalfedgeId| old(self).halfedge_retired(w) ==> #[trigger] final(self).halfedge_retired(w),
            final(self)@ == old(self)@.plus_halfedge(id, rec),
            final(self).room().within(old(self).room(), 0, 1, 0),
    {
        let raw = halfedges_insert(&mut self.halfedges, rec);
        if self.halfedge_bound < u32::MAX {
            self.halfedge_bound += 1;
        }
        let id = HalfedgeId::from_ffi(raw);
        proof {
            assert forall|w: HalfedgeId| w@ == id@ implies w == id by {
                HalfedgeId::lemma_view_injective(w, id);
            }
            assert(self@.halfedges =~= old(self)@.halfedges.insert(id, rec));
        }
        id
    }

    /// Takes the record of a halfedge out of the arena. Every copy of the
    /// identifier finds nothing from then on: it is retired, and no later
    /// insertion hands a retired identifier out, until the generations of
    /// its slot have run out and start again.
    pub fn remove_he(&mut self, id: HalfedgeId) -> (r: Option<Halfedge>)
        ensures
            r == (if old(self)@.halfedges.contains_key(id) {
                Some(old(self)@.halfedges[id])
            } else {
                None
            }),
            final(self)@ == old(self)@.minus_halfedge(id),
            final(self).room() == old(self).room(),
            r is Some && generation_of(id@) < u32::MAX ==> final(self).halfedge_retired(id),
            forall|w: HalfedgeId|
                old(self).halfedge_retired(w) && !(r is Some && slot_of(w@) == slot_of(id@)
                    && generation_of(id@) == u32::MAX) ==> #[trigger] final(self).halfedge_retired(w),
    {
        let r = halfedges_remove(&mut self.halfedges, id.as_ffi());
        proof {
            assert forall|w: HalfedgeId| w@ == id@ implies w == id by {
                HalfedgeId::lemma_view_injective(w, id);
            }
            if r.is_some() {
                assert(self@.halfedges =~= old(self)@.halfedges.remove(id));
            } else {
                assert(self@.halfedges =~= old(self)@.halfedges);
            }
        }
        r
    }

    /// The number of live halfedges.
    pub fn n_halfedges(&self) -> (n: usize)
        ensures
            n == self@.n_halfedges,
    {
        halfedges_len(&self.halfedges)
    }

    /// The identifiers of the live halfedges, each once, by rising slot index.
    pub fn halfedge_ids(&self) -> (ids: Vec<HalfedgeId>)
        ensures
            ids@.len() == self@.n_halfedges,
            forall|id: HalfedgeId| ids@.contains(id) ==> self@.halfedges.contains_key(id),
            forall|id: HalfedgeId| self@.halfedges.contains_key(id) ==> ids@.contains(id),
            forall|i: int, j: int|
                0 <= i < j < ids@.len() ==> slot_of((#[trigger] ids@[i])@) < slot_of(
                    (#[trigger] ids@[j])@,
                ),
    {
        let keys = halfedges_keys(&self.halfedges);
        let mut ids: Vec<HalfedgeId> = Vec::new();
        let mut i: usize = 0;
        while i < keys.len()
            invariant
                0 <= i <= keys.len(),
                ids@.len() == i,
                forall|k: int| 0 <= k < i ==> (#[trigger] ids@[k])@ == keys@[k],
                forall|k: int| 0 <= k < keys@.len() ==> key_of(#[trigger] keys@[k]) == keys@[k],
            decreases keys.len() - i,
        {
            let id = HalfedgeId::from_ffi(keys[i]);
            ids.push(id);
            i += 1;
        }
        proof {
            assert forall|id: HalfedgeId| ids@.contains(id) implies self@.halfedges.contains_key(id) by {
                let k = choose|k: int| 0 <= k < ids@.len() && ids@[k] == id;
                assert(keys@.contains(keys@[k]));
            }
            assert forall|id: HalfedgeId| self@.halfedges.contains_key(id) implies ids@.contains(id) by {
                assert(keys@.contains(id@));
                let k = choose|k: int| 0 <= k < keys@.len() && keys@[k] == id@;
                HalfedgeId::lemma_view_injective(ids@[k], id);
            }
        }
        ids
    }

    /// Overwrites the record of a live face.
    pub fn put_face(&mut self, id: FaceId, rec: Face) -> (r: SMeshResult<()>)
        ensures
            old(self)@.faces.contains_key(id) ==> r is Ok && final(self)@ == old(self)@.with_face(
                id,
                rec,
            ),
            !old(self)@.faces.contains_key(id) ==> r == Err::<(), SMeshError>(
                SMeshError::FaceNotFound(id),
            ) && final(self)@ == old(self)@,
            final(self).room() == old(self).room(),
    {
        let live = faces_set(&mut self.faces, id.as_ffi(), rec);
        proof {
            if live {
                assert forall|w: FaceId| w@ == id@ implies w == id by {
                    FaceId::lemma_view_injective(w, id);
                }
                assert(self@.faces =~= old(self)@.faces.insert(id, rec));
            } else {
                assert(self@.faces =~= old(self)@.faces);
            }
        }
        if live {
            Ok(())
        } else {
            Err(SMeshError::FaceNotFound(id))
        }
    }

    /// Stores a new face record and hands out its identifier, which was not
    /// live before.
    pub fn insert_face(&mut self, rec: Face) -> (id: FaceId)
        requires
            old(self).room().faces >= 1,
        ensures
            !old(self)@.faces.contains_key(id),
            !old(self).face_retired(id),
            forall|w: FaceId| old(self).face_retired(w) ==> #[trigger] final(self).face_retired(w),
            final(self)@ == old(self)@.plus_face(id, rec),
            final(self).room().within(old(self).room(), 0, 0, 1),
    {
        let raw = faces_insert(&mut self.faces, rec);
        if self.face_bound < u32::MAX {
            self.face_bound += 1;
        }
        let id = FaceId::from_ffi(raw);
        proof {
            assert forall|w: FaceId| w@ == id@ implies w == id by {
                FaceId::lemma_view_injective(w, id);
            }
            assert(self@.faces =~= old(self)@.faces.insert(id, rec));
        }
        id
    }

    /// Takes the record of a face out of the arena. Every copy of the
    /// identifier finds nothing from then on: it is retired, and no later
    /// insertion hands a retired identifier out, until the generations of
    /// its slot have run out and start again.
    pub fn remove_face(&mut self, id: FaceId) -> (r: Option<Face>)
        ensures
            r == (if old(self)@.faces.contains_key(id) {
                Some(old(self)@.faces[id])
            } else {
                None
            }),
            final(self)@ == old(self)@.minus_face(id),
            final(self).room() == old(self).room(),
            r is Some && generation_of(id@) < u32::MAX ==> final(self).face_retired(id),
            forall|w: FaceId|
                old(self).face_retired(w) && !(r is Some && slot_of(w@) == slot_of(id@)
                    && generation_of(id@) == u32::MAX) ==> #[trigger] final(self).face_retired(w),
    {
        let r = faces_remove(&mut self.faces, id.as_ffi());
        proof {
            assert forall|w: FaceId| w@ == id@ implies w == id by {
                FaceId::lemma_view_injective(w, id);
            }
            if r.is_some() {
                assert(self@.faces =~= old(self)@.faces.remove(id));
            } else {
                assert(self@.faces =~= old(self)@.faces);
            }
        }
        r
    }

    /// The number of live faces.
    pub fn n_faces(&self) -> (n: usize)
        ensures
            n == self@.n_faces,
    {
        faces_len(&self.faces)
    }

    /// The identifiers of the live faces, each once, by rising slot index.
    pub fn face_ids(&self) -> (ids: Vec<FaceId>)
        ensures
            ids@.len() == self@.n_faces,
            forall|id: FaceId| ids@.contains(id) ==> self@.faces.contains_key(id),
            forall|id: FaceId| self@.faces.contains_key(id) ==> ids@.contains(id),
            forall|i: int, j: int|
                0 <= i < j < ids@.len() ==> slot_of((#[trigger] ids@[i])@) < slot_of(
                    (#[trigger] ids@[j])@,
                ),
    {
        let keys = faces_keys(&self.faces);
        let mut ids: Vec<FaceId> = Vec::new();
        let mut i: usize = 0;
        while i < keys.len()
            invariant
                0 <= i <= keys.len(),
                ids@.len() == i,
                forall|k: int| 0 <= k < i ==> (#[trigger] ids@[k])@ == keys@[k],
                forall|k: int| 0 <= k < keys@.len() ==> key_of(#[trigger] keys@[k]) == keys@[k],
            decreases keys.len() - i,
        {
            let id = FaceId::from_ffi(keys[i]);
            ids.push(id);
            i += 1;
        }
        proof {
            assert forall|id: FaceId| ids@.contains(id) implies self@.faces.contains_key(id) by {
                let k = choose|k: int| 0 <= k < ids@.len() && ids@[k] == id;
                assert(keys@.contains(keys@[k]));
            }
            assert forall|id: FaceId| self@.faces.contains_key(id) implies ids@.contains(id) by {
                assert(keys@.contains(id@));
                let k = choose|k: int| 0 <= k < keys@.len() && keys@[k] == id@;
                FaceId::lemma_view_injective(ids@[k], id);
            }
        }
        ids
    }

    /// The outgoing halfedge that a vertex stores.
    pub fn vertex_halfedge(&self, v: VertexId) -> (r: SMeshResult<HalfedgeId>)
        ensures
            r == self@.vertex_halfedge(v),
    {
        match self.vert(v)?.halfedge {
            Some(h) => Ok(h),
            None => Err(SMeshError::VertexHasNoHalfEdge(v)),
        }
    }

    /// The halfedge that a face stores.
    pub fn face_halfedge(&self, f: FaceId) -> (r: SMeshResult<HalfedgeId>)
        ensures
            r == self@.face_halfedge(f),
    {
        match self.face(f)?.halfedge {
            Some(h) => Ok(h),
            None => Err(SMeshError::FaceHasNoHalfEdge(f)),
        }
    }

    /// The vertex a halfedge points to.
    pub fn he_vertex(&self, h: HalfedgeId) -> (r: SMeshResult<VertexId>)
        ensures
            r == self@.he_vertex(h),
    {
        Ok(self.he(h)?.vertex)
    }

    pub fn he_opposite(&self, h: HalfedgeId) -> (r: SMeshResult<HalfedgeId>)
        ensures
            r == self@.he_opposite(h),
    {
        match self.he(h)?.opposite {
            Some(o) => Ok(o),
            None => Err(SMeshError::HalfedgeHasNoOpposite(h)),
        }
    }

    pub fn he_next(&self, h: HalfedgeId) -> (r: SMeshResult<HalfedgeId>)
        ensures
            r == self@.he_next(h),
    {
        match self.he(h)?.next {
            Some(n) => Ok(n),
            None => Err(SMeshError::HalfedgeHasNoNext(h)),
        }
    }

    pub fn he_prev(&self, h: HalfedgeId) -> (r: SMeshResult<HalfedgeId>)
        ensures
            r == self@.he_prev(h),
    {
        match self.he(h)?.prev {
            Some(p) => Ok(p),
            None => Err(SMeshError::HalfedgeHasNoPrev(h)),
        }
    }

    pub fn he_face(&self, h: HalfedgeId) -> (r: SMeshResult<FaceId>)
        ensures
            r == self@.he_face(h),
    {
        match self.he(h)?.face {
            Some(f) => Ok(f),
            None => Err(SMeshError::HalfedgeHasNoFace(h)),
        }
    }

    /// The vertex a halfedge leaves.
    pub fn src_vertex(&self, h: HalfedgeId) -> (r: SMeshResult<VertexId>)
        ensures
            r == self@.src_vertex(h),
    {
        let o = self.he_opposite(h)?;
        self.he_vertex(o)
    }

    /// The next halfedge clockwise around the source vertex.
    pub fn cw(&self, h: HalfedgeId) -> (r: SMeshResult<HalfedgeId>)
        ensures
            r == self@.cw(h),
    {
        let o = self.he_opposite(h)?;
        self.he_next(o)
    }

    /// The next halfedge counter-clockwise around the source vertex.
    pub fn ccw(&self, h: HalfedgeId) -> (r: SMeshResult<HalfedgeId>)
        ensures
            r == self@.ccw(h),
    {
        let p = self.he_prev(h)?;
        self.he_opposite(p)
    }

    /// Whether a halfedge is on the boundary.
    pub fn he_is_boundary(&self, h: HalfedgeId) -> (r: bool)
        ensures
            r == self@.he_is_boundary(h),
    {
        self.he_face(h).is_err()
    }

    /// One step of a walk.
    pub fn advance(&self, turn: Turn, h: HalfedgeId) -> (r: SMeshResult<HalfedgeId>)
        ensures
            r == self@.advance(turn, h),
    {
        match turn {
            Turn::Ccw => self.ccw(h),
            Turn::Cw => self.cw(h),
            Turn::Next => self.he_next(h),
        }
    }

    /// The ring of a halfedge under the given step.
    pub fn orbit(&self, turn: Turn, start: HalfedgeId) -> (hs: Vec<HalfedgeId>)
        ensures
            hs@ == self@.orbit(turn, start),
    {
        let mut hs: Vec<HalfedgeId> = Vec::new();
        if self.he(start).is_err() {
            return hs;
        }
        let n = self.n_halfedges();
        let mut cur = start;
        let mut left: usize = n;
        let mut done = false;
        while left > 0 && !done
            invariant
                left <= n,
                n == self@.n_halfedges,
                !done ==> self@.orbit_from(turn, start, start, n as nat) == hs@ + self@.orbit_from(
                    turn,
                    start,
                    cur,
                    left as nat,
                ),
                done ==> self@.orbit_from(turn, start, start, n as nat) == hs@,
            decreases left,
        {
            let ghost before = hs@;
            hs.push(cur);
            left = left - 1;
            match self.advance(turn, cur) {
                Ok(nx) => {
                    if nx == start {
                        done = true;
                    } else {
                        proof {
                            assert(before + (seq![cur] + self@.orbit_from(
                                turn,
                                start,
                                nx,
                                left as nat,
                            )) =~= hs@ + self@.orbit_from(turn, start, nx, left as nat));
                        }
                        cur = nx;
                    }
                },
                Err(_) => {
                    done = true;
                },
            }
            proof {
                if done {
                    assert(before + seq![cur] =~= hs@);
                }
            }
        }
        proof {
            if !done {
                assert(hs@ + Seq::<HalfedgeId>::empty() =~= hs@);
            }
        }
        hs
    }

    /// The vertices that the halfedges point to, up to the first halfedge
    /// that is not live.
    pub fn targets(&self, hs: &Vec<HalfedgeId>) -> (vs: Vec<VertexId>)
        ensures
            vs@ == self@.targets(hs@),
    {
        let mut vs: Vec<VertexId> = Vec::new();
        let mut i: usize = 0;
        proof {
            assert(hs@.skip(0) =~= hs@);
            assert(vs@ + self@.targets(hs@) =~= self@.targets(hs@));
        }
        while i < hs.len()
            invariant
                0 <= i <= hs.len(),
                self@.targets(hs@) == vs@ + self@.targets(hs@.skip(i as int)),
            decreases hs.len() - i,
        {
            proof {
                assert(hs@.skip(i as int).drop_first() =~= hs@.skip(i + 1));
            }
            match self.he_vertex(hs[i]) {
                Ok(v) => {
                    let ghost before = vs@;
                    vs.push(v);
                    proof {
                        assert(before + (seq![v] + self@.targets(hs@.skip(i + 1))) =~= vs@
                            + self@.targets(hs@.skip(i + 1)));
                    }
                    i += 1;
                },
                Err(_) => {
                    proof {
                        assert(vs@ + Seq::<VertexId>::empty() =~= vs@);
                    }
                    return vs;
                },
            }
        }
        proof {
            assert(hs@.skip(i as int) =~= Seq::<HalfedgeId>::empty());
            assert(vs@ + Seq::<VertexId>::empty() =~= vs@);
        }
        vs
    }

    /// The faces of those halfedges that have one.
    pub fn faces_of(&self, hs: &Vec<HalfedgeId>) -> (fs: Vec<FaceId>)
        ensures
            fs@ == self@.faces_of(hs@),
    {
        let mut fs: Vec<FaceId> = Vec::new();
        let mut i: usize = 0;
        proof {
            assert(hs@.skip(0) =~= hs@);
            assert(fs@ + self@.faces_of(hs@) =~= self@.faces_of(hs@));
        }
        while i < hs.len()
            invariant
                0 <= i <= hs.len(),
                self@.faces_of(hs@) == fs@ + self@.faces_of(hs@.skip(i as int)),
            decreases hs.len() - i,
        {
            proof {
                assert(hs@.skip(i as int).drop_first() =~= hs@.skip(i + 1));
            }
            match self.he_face(hs[i]) {
                Ok(f) => {
                    let ghost before = fs@;
                    fs.push(f);
                    proof {
                        assert(before + (seq![f] + self@.faces_of(hs@.skip(i + 1))) =~= fs@
                            + self@.faces_of(hs@.skip(i + 1)));
                    }
                },
                Err(_) => {},
            }
            i += 1;
        }
        proof {
            assert(hs@.skip(i as int) =~= Seq::<HalfedgeId>::empty());
            assert(fs@ + Seq::<FaceId>::empty() =~= fs@);
        }
        fs
    }

    /// How many of the halfedges are on the boundary.
    pub fn boundary_count(&self, hs: &Vec<HalfedgeId>) -> (n: usize)
        ensures
            n == self@.boundary_count(hs@),
    {
        let mut n: usize = 0;
        let mut i: usize = 0;
        proof {
            assert(hs@.skip(0) =~= hs@);
        }
        while i < hs.len()
            invariant
                0 <= i <= hs.len(),
                n <= i,
                self@.boundary_count(hs@) == n + self@.boundary_count(hs@.skip(i as int)),
            decreases hs.len() - i,
        {
            proof {
                assert(hs@.skip(i as int).drop_first() =~= hs@.skip(i + 1));
            }
            if self.he_is_boundary(hs[i]) {
                n += 1;
            }
            i += 1;
        }
        proof {
            assert(hs@.skip(i as int) =~= Seq::<HalfedgeId>::empty());
        }
        n
    }

    /// The halfedges that leave a vertex.
    pub fn vertex_halfedges(&self, v: VertexId) -> (hs: Vec<HalfedgeId>)
        ensures
            hs@ == self@.vertex_halfedges(v),
    {
        match self.vertex_halfedge(v) {
            Ok(h) => self.orbit(Turn::Ccw, h),
            Err(_) => Vec::new(),
        }
    }

    /// The neighbours of a vertex.
    pub fn vertex_vertices(&self, v: VertexId) -> (vs: Vec<VertexId>)
        ensures
            vs@ == self@.vertex_vertices(v),
    {
        let hs = self.vertex_halfedges(v);
        self.targets(&hs)
    }

    /// The faces around a vertex.
    pub fn vertex_faces(&self, v: VertexId) -> (fs: Vec<FaceId>)
        ensures
            fs@ == self@.vertex_faces(v),
    {
        let hs = self.vertex_halfedges(v);
        self.faces_of(&hs)
    }

    /// The halfedges of a face's loop.
    pub fn face_halfedges(&self, f: FaceId) -> (hs: Vec<HalfedgeId>)
        ensures
            hs@ == self@.face_halfedges(f),
    {
        match self.face_halfedge(f) {
            Ok(h) => self.orbit(Turn::Next, h),
            Err(_) => Vec::new(),
        }
    }

    /// The corners of a face, in winding order.
    pub fn face_vertices(&self, f: FaceId) -> (vs: Vec<VertexId>)
        ensures
            vs@ == self@.face_vertices(f),
    {
        let hs = self.face_halfedges(f);
        self.targets(&hs)
    }

    /// Whether a vertex is on the boundary.
    pub fn vertex_is_boundary(&self, v: VertexId) -> (r: bool)
        ensures
            r == self@.vertex_is_boundary(v),
    {
        let hs = self.vertex_halfedges(v);
        hs.len() == 0 || self.boundary_count(&hs) > 0
    }

    /// Whether no outgoing halfedge can be read from a vertex.
    pub fn vertex_is_isolated(&self, v: VertexId) -> (r: bool)
        ensures
            r == self@.vertex_is_isolated(v),
    {
        self.vertex_halfedge(v).is_err()
    }

    /// Whether a vertex is manifold.
    pub fn vertex_is_manifold(&self, v: VertexId) -> (r: bool)
        ensures
            r == self@.vertex_is_manifold(v),
    {
        let hs = self.vertex_halfedges(v);
        self.boundary_count(&hs) < 2
    }

    /// The halfedge from `v0` to `v1`: the first one on the clockwise walk
    /// around `v0`, from its stored halfedge on, that points to `v1`.
    pub fn halfedge_to(&self, v0: VertexId, v1: VertexId) -> (r: SMeshResult<HalfedgeId>)
        ensures
            r == self@.halfedge_to(v0, v1),
    {
        let start = self.vertex_halfedge(v0)?;
        if v0 == v1 {
            return Err(SMeshError::CustomError(MSG_SAME_VERTEX));
        }
        let n = self.n_halfedges();
        let mut cur = start;
        let mut left: usize = n;
        while left > 0
            invariant
                left <= n,
                n == self@.n_halfedges,
                v0 != v1,
                self@.vertex_halfedge(v0) == Ok::<HalfedgeId, SMeshError>(start),
                self@.seek(start, start, v1, n as nat) == self@.seek(start, cur, v1, left as nat),
            decreases left,
        {
            let d = self.he_vertex(cur)?;
            if d == v1 {
                return Ok(cur);
            }
            let nx = self.cw(cur)?;
            if nx == start {
                return Err(SMeshError::CustomError(MSG_NO_CONNECTION));
            }
            cur = nx;
            left = left - 1;
        }
        Err(SMeshError::CustomError(MSG_NO_CONNECTION))
    }

    /// The first boundary halfedge on the clockwise walk from `start`, or
    /// none when the walk comes back first.
    pub fn find_boundary(&self, start: HalfedgeId) -> (r: SMeshResult<Option<HalfedgeId>>)
        ensures
            r == self@.find_boundary(start, start, self@.n_halfedges),
    {
        let n = self.n_halfedges();
        let mut cur = start;
        let mut left: usize = n;
        while left > 0
            invariant
                left <= n,
                n == self@.n_halfedges,
                self@.find_boundary(start, start, n as nat) == self@.find_boundary(
                    start,
                    cur,
                    left as nat,
                ),
            decreases left,
        {
            if self.he_is_boundary(cur) {
                return Ok(Some(cur));
            }
            let nx = self.cw(cur)?;
            if nx == start {
                return Ok(None);
            }
            cur = nx;
            left = left - 1;
        }
        Ok(None)
    }

    /// Stores the outgoing halfedge of a vertex.
    pub fn set_vertex_halfedge(&mut self, v: VertexId, h: Option<HalfedgeId>) -> (r: SMeshResult<()>)
        ensures
            Edit::of(old(self)@).set_vertex_halfedge(v, h) == Edit::after(final(self)@, r),
            final(self).room() == old(self).room(),
    {
        self.put_vert(v, Vertex { halfedge: h })
    }

    /// Stores the halfedge of a face.
    pub fn set_face_halfedge(&mut self, f: FaceId, h: Option<HalfedgeId>) -> (r: SMeshResult<()>)
        ensures
            Edit::of(old(self)@).set_face_halfedge(f, h) == Edit::after(final(self)@, r),
            final(self).room() == old(self).room(),
    {
        self.put_face(f, Face { halfedge: h })
    }

    /// Stores the vertex that a halfedge points to.
    pub fn set_vertex(&mut self, h: HalfedgeId, v: VertexId) -> (r: SMeshResult<()>)
        ensures
            Edit::of(old(self)@).set_vertex(h, v) == Edit::after(final(self)@, r),
            final(self).room() == old(self).room(),
    {
        let rec = self.he(h)?;
        self.put_he(h, Halfedge { vertex: v, ..rec })
    }

    /// Stores the face of a halfedge.
    pub fn set_face(&mut self, h: HalfedgeId, f: Option<FaceId>) -> (r: SMeshResult<()>)
        ensures
            Edit::of(old(self)@).set_face(h, f) == Edit::after(final(self)@, r),
            final(self).room() == old(self).room(),
    {
        let rec = self.he(h)?;
        self.put_he(h, Halfedge { face: f, ..rec })
    }

    fn set_next_field(&mut self, h: HalfedgeId, next: Option<HalfedgeId>) -> (r: SMeshResult<()>)
        ensures
            Edit::of(old(self)@).set_next_field(h, next) == Edit::after(final(self)@, r),
            final(self).room() == old(self).room(),
    {
        let rec = self.he(h)?;
        self.put_he(h, Halfedge { next, ..rec })
    }

    fn set_prev_field(&mut self, h: HalfedgeId, prev: Option<HalfedgeId>) -> (r: SMeshResult<()>)
        ensures
            Edit::of(old(self)@).set_prev_field(h, prev) == Edit::after(final(self)@, r),
            final(self).room() == old(self).room(),
    {
        let rec = self.he(h)?;
        self.put_he(h, Halfedge { prev, ..rec })
    }

    fn set_opposite_field(&mut self, h: HalfedgeId, o: Option<HalfedgeId>) -> (r: SMeshResult<()>)
        ensures
            Edit::of(old(self)@).set_opposite_field(h, o) == Edit::after(final(self)@, r),
            final(self).room() == old(self).room(),
    {
        let rec = self.he(h)?;
        self.put_he(h, Halfedge { opposite: o, ..rec })
    }

    /// Makes `next` follow `h`: stores it as the next of `h`, and `h` as its
    /// previous.
    pub fn set_next(&mut self, h: HalfedgeId, next: Option<HalfedgeId>) -> (r: SMeshResult<()>)
        ensures
            Edit::of(old(self)@).set_next(h, next) == Edit::after(final(self)@, r),
            final(self).room() == old(self).room(),
    {
        self.set_next_field(h, next)?;
        if let Some(n) = next {
            self.set_prev_field(n, Some(h))?;
        }
        Ok(())
    }

    /// Makes `prev` precede `h`: stores it as the previous of `h`, and `h`
    /// as its next.
    pub fn set_prev(&mut self, h: HalfedgeId, prev: Option<HalfedgeId>) -> (r: SMeshResult<()>)
        ensures
            Edit::of(old(self)@).set_prev(h, prev) == Edit::after(final(self)@, r),
            final(self).room() == old(self).room(),
    {
        self.set_prev_field(h, prev)?;
        if let Some(p) = prev {
            self.set_next_field(p, Some(h))?;
        }
        Ok(())
    }

    /// Makes two halfedges each other's opposite.
    pub fn set_opposite(&mut self, h: HalfedgeId, o: HalfedgeId) -> (r: SMeshResult<()>)
        ensures
            Edit::of(old(self)@).set_opposite(h, o) == Edit::after(final(self)@, r),
            final(self).room() == old(self).room(),
    {
        self.set_opposite_field(h, Some(o))?;
        self.set_opposite_field(o, Some(h))?;
        Ok(())
    }

    /// Removes a vertex record. Nothing that refers to it is touched.
    pub fn drop_vertex(&mut self, v: VertexId)
        ensures
            Edit::of(old(self)@).drop_vertex(v) == Edit::of(final(self)@),
            final(self).room() == old(self).room(),
    {
        let _ = self.remove_vert(v);
    }

    /// Removes a face record. Nothing that refers to it is touched.
    pub fn drop_face(&mut self, f: FaceId)
        ensures
            Edit::of(old(self)@).drop_face(f) == Edit::of(final(self)@),
            final(self).room() == old(self).room(),
    {
        let _ = self.remove_face(f);
    }

    /// Removes a halfedge and the halfedge it names as its opposite.
    pub fn drop_edge(&mut self, h: HalfedgeId)
        ensures
            Edit::of(old(self)@).drop_edge(h) == Edit::of(final(self)@),
            final(self).room() == old(self).room(),
    {
        if let Some(rec) = self.remove_he(h) {
            if let Some(o) = rec.opposite {
                let _ = self.remove_he(o);
            }
        }
    }

    /// Adds the two halfedges of an edge from `v0` to `v1`, each other's
    /// opposite and linked to nothing else. The first one points to `v1`.
    pub fn add_edge(&mut self, v0: VertexId, v1: VertexId) -> (hs: (HalfedgeId, HalfedgeId))
        requires
            old(self).room().halfedges >= 2,
        ensures
            !old(self)@.halfedges.contains_key(hs.0),
            !old(self)@.halfedges.contains_key(hs.1),
            hs.0 != hs.1,
            Edit::of(old(self)@).add_edge(v0, v1, hs.0, hs.1) == Edit::of(final(self)@),
            final(self).room().within(old(self).room(), 0, 2, 0),
    {
        let h0 = self.insert_he(
            Halfedge { vertex: v1, face: None, opposite: None, prev: None, next: None },
        );
        let h1 = self.insert_he(
            Halfedge { vertex: v0, face: None, opposite: Some(h0), prev: None, next: None },
        );
        let r = self.put_he(
            h0,
            Halfedge { vertex: v1, face: None, opposite: Some(h1), prev: None, next: None },
        );
        proof {
            assert(self@.halfedges =~= Edit::of(old(self)@).add_edge(v0, v1, h0, h1).g.halfedges);
        }
        (h0, h1)
    }

    /// Makes the stored outgoing halfedge of a vertex a boundary one, if the
    /// clockwise walk from the stored one meets any before it comes back.
    pub fn adjust_outgoing_halfedge(&mut self, v: VertexId) -> (r: SMeshResult<()>)
        ensures
            Edit::of(old(self)@).adjust_outgoing_halfedge(v) == Edit::after(final(self)@, r),
            final(self).room() == old(self).room(),
    {
        let h0 = self.vertex_halfedge(v)?;
        match self.find_boundary(h0)? {
            Some(h) => self.set_vertex_halfedge(v, Some(h)),
            None => Ok(()),
        }
    }

    /// A copy with arenas of its own: the same records under the same
    /// identifiers.
    pub fn duplicate(&self) -> (c: Self)
        ensures
            c@ == self@,
            c.room() == self.room(),
    {
        let c = Connectivity {
            vertices: vertices_clone(&self.vertices),
            halfedges: halfedges_clone(&self.halfedges),
            faces: faces_clone(&self.faces),
            vertex_bound: self.vertex_bound,
            halfedge_bound: self.halfedge_bound,
            face_bound: self.face_bound,
        };
        proof {
            assert(c@.vertices =~= self@.vertices);
            assert(c@.halfedges =~= self@.halfedges);
            assert(c@.faces =~= self@.faces);
        }
        c
    }
}

impl Clone for Connectivity {
    fn clone(&self) -> (c: Self)
        ensures
            c@ == self@,
            c.room() == self.room(),
    {
        self.duplicate()
    }
}

} // verus!
