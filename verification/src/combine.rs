use vstd::prelude::*;
use crate::attribute::{point_put, point_set, uv_put, Point2, Point3};
use crate::edit::Edit;
use crate::error::{SMeshError, SMeshResult};
use crate::graph::Graph;
use crate::mesh::{Attributes, SMesh};
use crate::mesh_elements::{slot_of, Face, FaceId, Halfedge, HalfedgeId, Vertex, VertexId};
use crate::world::World;

verus! {

/// The entry of `vals` at the place where `k` first stands in `keys` from
/// the `i`-th place on.
pub open spec fn image<K, V>(keys: Seq<K>, vals: Seq<V>, k: K, i: int) -> Option<V>
    decreases keys.len() - i,
{
    if i < 0 || i >= keys.len() || i >= vals.len() {
        None
    } else if keys[i] == k {
        Some(vals[i])
    } else {
        image(keys, vals, k, i + 1)
    }
}

/// The image of a reference that may be absent.
pub open spec fn image_of<K, V>(keys: Seq<K>, vals: Seq<V>, k: Option<K>) -> Option<V> {
    match k {
        Some(k) => image(keys, vals, k, 0),
        None => None,
    }
}

/// The identifiers of a mesh that is to be copied into another, and the
/// identifiers that its records get there: the `i`-th entry of each `new_`
/// list stands for the `i`-th entry of the list beside it.
pub struct Renaming {
    pub vertices: Seq<VertexId>,
    pub new_vertices: Seq<VertexId>,
    pub halfedges: Seq<HalfedgeId>,
    pub new_halfedges: Seq<HalfedgeId>,
    pub faces: Seq<FaceId>,
    pub new_faces: Seq<FaceId>,
}

impl Renaming {
    /// The record of a halfedge with every reference renamed.
    pub open spec fn halfedge(self, rec: Halfedge) -> Halfedge {
        Halfedge {
            vertex: match image(self.vertices, self.new_vertices, rec.vertex, 0) {
                Some(v) => v,
                None => rec.vertex,
            },
            face: image_of(self.faces, self.new_faces, rec.face),
            opposite: image_of(self.halfedges, self.new_halfedges, rec.opposite),
            prev: image_of(self.halfedges, self.new_halfedges, rec.prev),
            next: image_of(self.halfedges, self.new_halfedges, rec.next),
        }
    }

    /// The new identifiers are not live in `g`, and no two of a kind are the
    /// same. Each new vertex identifier can be handed out for a new vertex
    /// of `g`, and no two of them have the same slot.
    pub open spec fn fresh_in(self, g: Graph) -> bool {
        &&& crate::world::fresh_vertices(g, self.new_vertices)
        &&& self.new_vertices.len() == self.vertices.len()
        &&& self.new_halfedges.len() == self.halfedges.len()
        &&& self.new_faces.len() == self.faces.len()
        &&& forall|i: int|
            0 <= i < self.new_vertices.len() ==> !g.vertices.contains_key(
                #[trigger] self.new_vertices[i],
            )
        &&& forall|i: int|
            0 <= i < self.new_halfedges.len() ==> !g.halfedges.contains_key(
                #[trigger] self.new_halfedges[i],
            )
        &&& forall|i: int|
            0 <= i < self.new_faces.len() ==> !g.faces.contains_key(#[trigger] self.new_faces[i])
        &&& forall|i: int, j: int|
            0 <= i < j < self.new_vertices.len() ==> #[trigger] self.new_vertices[i]
                != #[trigger] self.new_vertices[j]
        &&& forall|i: int, j: int|
            0 <= i < j < self.new_halfedges.len() ==> #[trigger] self.new_halfedges[i]
                != #[trigger] self.new_halfedges[j]
        &&& forall|i: int, j: int|
            0 <= i < j < self.new_faces.len() ==> #[trigger] self.new_faces[i]
                != #[trigger] self.new_faces[j]
    }

    /// The lists name the live records of `o`, each once, by rising slot
    /// index.
    pub open spec fn lists(self, o: Graph) -> bool {
        &&& self.vertices.len() == o.n_vertices
        &&& self.halfedges.len() == o.n_halfedges
        &&& self.faces.len() == o.n_faces
        &&& forall|v: VertexId| self.vertices.contains(v) <==> o.vertices.contains_key(v)
        &&& forall|h: HalfedgeId| self.halfedges.contains(h) <==> o.halfedges.contains_key(h)
        &&& forall|f: FaceId| self.faces.contains(f) <==> o.faces.contains_key(f)
        &&& forall|i: int, j: int|
            0 <= i < j < self.vertices.len() ==> slot_of((#[trigger] self.vertices[i])@) < slot_of(
                (#[trigger] self.vertices[j])@,
            )
        &&& forall|i: int, j: int|
            0 <= i < j < self.halfedges.len() ==> slot_of((#[trigger] self.halfedges[i])@)
                < slot_of((#[trigger] self.halfedges[j])@)
        &&& forall|i: int, j: int|
            0 <= i < j < self.faces.len() ==> slot_of((#[trigger] self.faces[i])@) < slot_of(
                (#[trigger] self.faces[j])@,
            )
    }
}

impl Graph {
    /// The first reference of the halfedges from the `i`-th on to a vertex
    /// or a face that is not live.
    pub open spec fn ends_live(self, hs: Seq<HalfedgeId>, i: int) -> SMeshResult<()>
        decreases hs.len() - i,
    {
        if i < 0 || i >= hs.len() {
            Ok(())
        } else if !self.halfedges.contains_key(hs[i]) {
            Err(SMeshError::HalfedgeNotFound(hs[i]))
        } else if !self.vertices.contains_key(self.halfedges[hs[i]].vertex) {
            Err(SMeshError::VertexNotFound(self.halfedges[hs[i]].vertex))
        } else {
            match self.halfedges[hs[i]].face {
                Some(f) if !self.faces.contains_key(f) => Err(SMeshError::FaceNotFound(f)),
                _ => self.ends_live(hs, i + 1),
            }
        }
    }

    /// The error for a reference to a halfedge that is not live.
    pub open spec fn link_live(self, h: Option<HalfedgeId>) -> SMeshResult<()> {
        match h {
            Some(h) if !self.halfedges.contains_key(h) => Err(SMeshError::HalfedgeNotFound(h)),
            _ => Ok(()),
        }
    }

    /// The first reference of the halfedges from the `i`-th on to a halfedge
    /// that is not live.
    pub open spec fn links_live(self, hs: Seq<HalfedgeId>, i: int) -> SMeshResult<()>
        decreases hs.len() - i,
    {
        if i < 0 || i >= hs.len() {
            Ok(())
        } else if !self.halfedges.contains_key(hs[i]) {
            Err(SMeshError::HalfedgeNotFound(hs[i]))
        } else {
            let rec = self.halfedges[hs[i]];
            match self.link_live(rec.opposite) {
                Err(e) => Err(e),
                Ok(_) => match self.link_live(rec.next) {
                    Err(e) => Err(e),
                    Ok(_) => match self.link_live(rec.prev) {
                        Err(e) => Err(e),
                        Ok(_) => self.links_live(hs, i + 1),
                    },
                },
            }
        }
    }

    /// The first stored halfedge of the vertices from the `i`-th on that is
    /// not live.
    pub open spec fn spokes_live(self, vs: Seq<VertexId>, i: int) -> SMeshResult<()>
        decreases vs.len() - i,
    {
        if i < 0 || i >= vs.len() {
            Ok(())
        } else if !self.vertices.contains_key(vs[i]) {
            Err(SMeshError::VertexNotFound(vs[i]))
        } else {
            match self.link_live(self.vertices[vs[i]].halfedge) {
                Err(e) => Err(e),
                Ok(_) => self.spokes_live(vs, i + 1),
            }
        }
    }

    /// The first stored halfedge of the faces from the `i`-th on that is not
    /// live.
    pub open spec fn loops_live(self, fs: Seq<FaceId>, i: int) -> SMeshResult<()>
        decreases fs.len() - i,
    {
        if i < 0 || i >= fs.len() {
            Ok(())
        } else if !self.faces.contains_key(fs[i]) {
            Err(SMeshError::FaceNotFound(fs[i]))
        } else {
            match self.link_live(self.faces[fs[i]].halfedge) {
                Err(e) => Err(e),
                Ok(_) => self.loops_live(fs, i + 1),
            }
        }
    }

    /// Whether every reference in the graph leads to a live record: `Ok`, or
    /// the first reference that does not.
    pub open spec fn references_live(self, names: Renaming) -> SMeshResult<()> {
        match self.ends_live(names.halfedges, 0) {
            Err(e) => Err(e),
            Ok(_) => match self.links_live(names.halfedges, 0) {
                Err(e) => Err(e),
                Ok(_) => match self.spokes_live(names.vertices, 0) {
                    Err(e) => Err(e),
                    Ok(_) => self.loops_live(names.faces, 0),
                },
            },
        }
    }

    /// This graph with an isolated vertex under each of the identifiers,
    /// added in order.
    pub open spec fn planted_vertices(self, news: Seq<VertexId>) -> Graph
        decreases news.len(),
    {
        if news.len() == 0 {
            self
        } else {
            self.planted_vertices(news.drop_last()).plus_vertex(
                news.last(),
                Vertex { halfedge: None },
            )
        }
    }

    /// This graph with a face without a halfedge under each of the
    /// identifiers, added in order.
    pub open spec fn planted_faces(self, news: Seq<FaceId>) -> Graph
        decreases news.len(),
    {
        if news.len() == 0 {
            self
        } else {
            self.planted_faces(news.drop_last()).plus_face(news.last(), Face { halfedge: None })
        }
    }

    /// This graph with the record that `o` holds for the `i`-th of `olds`
    /// under the `i`-th of `news`, for each `i`, added in order. The records
    /// are as they stand in `o`.
    pub open spec fn planted_halfedges(self, o: Graph, olds: Seq<HalfedgeId>, news: Seq<HalfedgeId>) -> Graph
        decreases news.len(),
    {
        if news.len() == 0 || olds.len() < news.len() {
            self
        } else {
            self.planted_halfedges(o, olds, news.drop_last()).plus_halfedge(
                news.last(),
                o.halfedges[olds[news.len() - 1]],
            )
        }
    }

    /// This graph with a copy of the graph `o` beside it: first every record
    /// of `o` is added under its new identifier, then every reference in the
    /// copy is renamed so that it stays within the copy.
    pub open spec fn combined(self, o: Graph, names: Renaming) -> Edit {
        Edit::of(
            self.planted_vertices(names.new_vertices).planted_faces(
                names.new_faces,
            ).planted_halfedges(o, names.halfedges, names.new_halfedges),
        ).renamed_halfedges(o, names, 0).renamed_vertices(o, names, 0).renamed_faces(o, names, 0)
    }
}

impl Edit {
    /// Stores the renamed record of each halfedge from the `i`-th on.
    pub open spec fn renamed_halfedges(self, o: Graph, names: Renaming, i: int) -> Edit
        decreases names.halfedges.len() - i,
    {
        if i < 0 || i >= names.halfedges.len() || i >= names.new_halfedges.len() {
            self
        } else {
            let stored = self.put_he(
                names.new_halfedges[i],
                names.halfedge(o.halfedges[names.halfedges[i]]),
            );
            if stored.err is Some {
                stored
            } else {
                stored.renamed_halfedges(o, names, i + 1)
            }
        }
    }

    /// Stores the renamed outgoing halfedge of each vertex from the `i`-th
    /// on.
    pub open spec fn renamed_vertices(self, o: Graph, names: Renaming, i: int) -> Edit
        decreases names.vertices.len() - i,
    {
        if i < 0 || i >= names.vertices.len() || i >= names.new_vertices.len() {
            self
        } else {
            let stored = self.set_vertex_halfedge(
                names.new_vertices[i],
                image_of(
                    names.halfedges,
                    names.new_halfedges,
                    o.vertices[names.vertices[i]].halfedge,
                ),
            );
            if stored.err is Some {
                stored
            } else {
                stored.renamed_vertices(o, names, i + 1)
            }
        }
    }

    /// Stores the renamed halfedge of each face from the `i`-th on.
    pub open spec fn renamed_faces(self, o: Graph, names: Renaming, i: int) -> Edit
        decreases names.faces.len() - i,
    {
        if i < 0 || i >= names.faces.len() || i >= names.new_faces.len() {
            self
        } else {
            let stored = self.set_face_halfedge(
                names.new_faces[i],
                image_of(names.halfedges, names.new_halfedges, o.faces[names.faces[i]].halfedge),
            );
            if stored.err is Some {
                stored
            } else {
                stored.renamed_faces(o, names, i + 1)
            }
        }
    }
}

/// The entries `m` with the value that `from` holds for each identifier from
/// the `i`-th on stored under its new identifier.
pub open spec fn points_copied(
    m: Map<u64, Point3>,
    from: Map<u64, Point3>,
    ids: Seq<u64>,
    new_ids: Seq<u64>,
    i: int,
) -> Map<u64, Point3>
    decreases ids.len() - i,
{
    if i < 0 || i >= ids.len() || i >= new_ids.len() {
        m
    } else {
        points_copied(
            if from.contains_key(ids[i]) {
                point_set(m, new_ids[i], from[ids[i]])
            } else {
                m
            },
            from,
            ids,
            new_ids,
            i + 1,
        )
    }
}

/// `points_copied` for a map that may be absent on either side: nothing is
/// copied from an absent map, and an absent map comes into being with the
/// first value that is copied into it.
pub open spec fn normals_copied(
    m: Option<Map<u64, Point3>>,
    from: Option<Map<u64, Point3>>,
    ids: Seq<u64>,
    new_ids: Seq<u64>,
    i: int,
) -> Option<Map<u64, Point3>>
    decreases ids.len() - i,
{
    if i < 0 || i >= ids.len() || i >= new_ids.len() {
        m
    } else {
        normals_copied(
            match from {
                Some(f) if f.contains_key(ids[i]) => Some(
                    point_put(
                        match m {
                            Some(m) => m,
                            None => Map::empty(),
                        },
                        new_ids[i],
                        f[ids[i]],
                    ),
                ),
                _ => m,
            },
            from,
            ids,
            new_ids,
            i + 1,
        )
    }
}

/// `normals_copied` for texture coordinates.
pub open spec fn uvs_copied(
    m: Option<Map<u64, Point2>>,
    from: Option<Map<u64, Point2>>,
    ids: Seq<u64>,
    new_ids: Seq<u64>,
    i: int,
) -> Option<Map<u64, Point2>>
    decreases ids.len() - i,
{
    if i < 0 || i >= ids.len() || i >= new_ids.len() {
        m
    } else {
        uvs_copied(
            match from {
                Some(f) if f.contains_key(ids[i]) => Some(
                    uv_put(
                        match m {
                            Some(m) => m,
                            None => Map::empty(),
                        },
                        new_ids[i],
                        f[ids[i]],
                    ),
                ),
                _ => m,
            },
            from,
            ids,
            new_ids,
            i + 1,
        )
    }
}

/// The raw values of identifiers.
pub open spec fn raw_vertices(ids: Seq<VertexId>) -> Seq<u64> {
    Seq::new(ids.len(), |i: int| ids[i]@)
}

/// The raw values of identifiers.
pub open spec fn raw_halfedges(ids: Seq<HalfedgeId>) -> Seq<u64> {
    Seq::new(ids.len(), |i: int| ids[i]@)
}

/// The raw values of identifiers.
pub open spec fn raw_faces(ids: Seq<FaceId>) -> Seq<u64> {
    Seq::new(ids.len(), |i: int| ids[i]@)
}

impl World {
    /// The attributes of this world with the attributes of the live
    /// elements of the world `o` stored under their new identifiers.
    pub open spec fn combined_attributes(self, o: World, names: Renaming) -> Attributes {
        Attributes {
                positions: points_copied(
                    self.a.positions,
                    o.a.positions,
                    raw_vertices(names.vertices),
                    raw_vertices(names.new_vertices),
                    0,
                ),
                vertex_normals: normals_copied(
                    self.a.vertex_normals,
                    o.a.vertex_normals,
                    raw_vertices(names.vertices),
                    raw_vertices(names.new_vertices),
                    0,
                ),
                face_normals: normals_copied(
                    self.a.face_normals,
                    o.a.face_normals,
                    raw_faces(names.faces),
                    raw_faces(names.new_faces),
                    0,
                ),
                uvs: uvs_copied(
                    self.a.uvs,
                    o.a.uvs,
                    raw_halfedges(names.halfedges),
                    raw_halfedges(names.new_halfedges),
                    0,
                ),
        }
    }

    /// The world `after` and the result `r` are what copying the world `o`
    /// into this one under the given names gives.
    pub open spec fn combined_as(
        self,
        o: World,
        names: Renaming,
        after: World,
        r: SMeshResult<()>,
    ) -> bool {
        &&& names.lists(o.g)
        &&& (match o.g.references_live(names) {
            Err(e) => after == self && r == Err::<(), SMeshError>(e),
            Ok(_) => names.fresh_in(self.g) && Edit::after(after.g, r) == self.g.combined(
                o.g,
                names,
            ) && after.a == self.combined_attributes(o, names),
        })
    }

    /// The world `after` and the result `r` are what copying the world `o`
    /// into this one gives. Nothing is changed where a reference in `o` does
    /// not lead to a live record of `o`. Else every record of `o` is added
    /// under a fresh identifier, with its references renamed, and the
    /// attributes of the live elements of `o` are stored under the new
    /// identifiers.
    pub open spec fn combined_with(self, o: World, after: World, r: SMeshResult<()>) -> bool {
        exists|names: Renaming| #[trigger] self.combined_as(o, names, after, r)
    }
}

/// What `points_copied` leaves: each value that `from` holds stands under
/// the new identifier, where no two new identifiers share a slot, and the
/// entries of every other slot are as they were.
pub proof fn lemma_points_copied(
    m: Map<u64, Point3>,
    from: Map<u64, Point3>,
    ids: Seq<u64>,
    new_ids: Seq<u64>,
    i: int,
)
    requires
        0 <= i <= ids.len(),
        ids.len() == new_ids.len(),
        forall|a: int, b: int|
            0 <= a < b < new_ids.len() ==> slot_of(#[trigger] new_ids[a]) != slot_of(
                #[trigger] new_ids[b],
            ),
    ensures
        forall|j: int|
            i <= j < ids.len() && from.contains_key(ids[j]) ==> points_copied(
                m,
                from,
                ids,
                new_ids,
                i,
            ).contains_key(#[trigger] new_ids[j]) && points_copied(m, from, ids, new_ids, i)[new_ids[j]]
                == from[ids[j]],
        forall|k: u64|
            (forall|j: int| i <= j < ids.len() ==> slot_of(k) != slot_of(#[trigger] new_ids[j]))
                ==> (#[trigger] points_copied(m, from, ids, new_ids, i).contains_key(k)
                <==> m.contains_key(k)) && (m.contains_key(k) ==> points_copied(
                m,
                from,
                ids,
                new_ids,
                i,
            )[k] == m[k]),
    decreases ids.len() - i,
{
    if i < ids.len() {
        let step = if from.contains_key(ids[i]) {
            point_set(m, new_ids[i], from[ids[i]])
        } else {
            m
        };
        lemma_points_copied(step, from, ids, new_ids, i + 1);
        let r = points_copied(m, from, ids, new_ids, i);
        assert(r == points_copied(step, from, ids, new_ids, i + 1));
        assert forall|j: int| i <= j < ids.len() && from.contains_key(ids[j]) implies r.contains_key(
            #[trigger] new_ids[j],
        ) && r[new_ids[j]] == from[ids[j]] by {
            if j == i {
                let k = new_ids[i];
                assert forall|l: int| i + 1 <= l < ids.len() implies slot_of(k) != slot_of(
                    #[trigger] new_ids[l],
                ) by {}
                assert(step.contains_key(k) && step[k] == from[ids[i]]);
                assert(r.contains_key(k) <==> step.contains_key(k));
            }
        }
        assert forall|k: u64|
            (forall|j: int| i <= j < ids.len() ==> slot_of(k) != slot_of(#[trigger] new_ids[j]))
            implies (#[trigger] r.contains_key(k) <==> m.contains_key(k)) && (m.contains_key(k)
            ==> r[k] == m[k]) by {
            assert(slot_of(k) != slot_of(new_ids[i]));
            assert forall|j: int| i + 1 <= j < ids.len() implies slot_of(k) != slot_of(
                #[trigger] new_ids[j],
            ) by {}
            assert(r.contains_key(k) <==> step.contains_key(k));
            assert(step.contains_key(k) <==> m.contains_key(k));
        }
    }
}

impl World {
    /// The copies carry the positions. After a mesh was copied into this
    /// one, each copy of a vertex stands where that vertex stands in the
    /// other mesh, if it has a position there, and the vertices of this mesh
    /// stand where they stood.
    pub proof fn law_copies_carry_positions(self, o: World, names: Renaming)
        requires
            names.fresh_in(self.g),
        ensures
            forall|i: int|
                0 <= i < names.vertices.len() && o.a.positions.contains_key(names.vertices[i]@)
                    ==> self.combined_attributes(o, names).positions.contains_key(
                    (#[trigger] names.new_vertices[i])@,
                ) && self.combined_attributes(o, names).positions[names.new_vertices[i]@]
                    == o.a.positions[names.vertices[i]@],
            forall|u: VertexId|
                self.g.vertices.contains_key(u) ==> (#[trigger] self.combined_attributes(
                    o,
                    names,
                ).positions.contains_key(u@) <==> self.a.positions.contains_key(u@))
                    && (self.a.positions.contains_key(u@) ==> self.combined_attributes(
                    o,
                    names,
                ).positions[u@] == self.a.positions[u@]),
    {
        let ids = raw_vertices(names.vertices);
        let new_ids = raw_vertices(names.new_vertices);
        assert forall|a: int, b: int| 0 <= a < b < new_ids.len() implies slot_of(
            #[trigger] new_ids[a],
        ) != slot_of(#[trigger] new_ids[b]) by {
            assert(slot_of(names.new_vertices[a]@) != slot_of(names.new_vertices[b]@));
        }
        lemma_points_copied(self.a.positions, o.a.positions, ids, new_ids, 0);
        let r = points_copied(self.a.positions, o.a.positions, ids, new_ids, 0);
        assert forall|i: int|
            0 <= i < names.vertices.len() && o.a.positions.contains_key(
                names.vertices[i]@,
            ) implies r.contains_key((#[trigger] names.new_vertices[i])@) && r[names.new_vertices[i]@]
            == o.a.positions[names.vertices[i]@] by {
            assert(ids[i] == names.vertices[i]@);
            assert(new_ids[i] == names.new_vertices[i]@);
        }
        assert forall|u: VertexId| self.g.vertices.contains_key(u) implies (#[trigger] r.contains_key(
            u@,
        ) <==> self.a.positions.contains_key(u@)) && (self.a.positions.contains_key(u@) ==> r[u@]
            == self.a.positions[u@]) by {
            assert forall|j: int| 0 <= j < ids.len() implies slot_of(u@) != slot_of(
                #[trigger] new_ids[j],
            ) by {
                assert(self.g.vertex_free(names.new_vertices[j]));
                assert(new_ids[j] == names.new_vertices[j]@);
            }
        }
    }
}

fn image_vertex(keys: &Vec<VertexId>, vals: &Vec<VertexId>, k: VertexId) -> (r: Option<VertexId>)
    ensures
        r == image(keys@, vals@, k, 0),
{
    let mut i: usize = 0;
    while i < keys.len() && i < vals.len()
        invariant
            0 <= i <= keys@.len(),
            image(keys@, vals@, k, 0) == image(keys@, vals@, k, i as int),
        decreases keys@.len() - i,
    {
        if keys[i] == k {
            return Some(vals[i]);
        }
        i += 1;
    }
    None
}

fn image_halfedge(keys: &Vec<HalfedgeId>, vals: &Vec<HalfedgeId>, k: HalfedgeId) -> (r: Option<HalfedgeId>)
    ensures
        r == image(keys@, vals@, k, 0),
{
    let mut i: usize = 0;
    while i < keys.len() && i < vals.len()
        invariant
            0 <= i <= keys@.len(),
            image(keys@, vals@, k, 0) == image(keys@, vals@, k, i as int),
        decreases keys@.len() - i,
    {
        if keys[i] == k {
            return Some(vals[i]);
        }
        i += 1;
    }
    None
}

fn image_face(keys: &Vec<FaceId>, vals: &Vec<FaceId>, k: FaceId) -> (r: Option<FaceId>)
    ensures
        r == image(keys@, vals@, k, 0),
{
    let mut i: usize = 0;
    while i < keys.len() && i < vals.len()
        invariant
            0 <= i <= keys@.len(),
            image(keys@, vals@, k, 0) == image(keys@, vals@, k, i as int),
        decreases keys@.len() - i,
    {
        if keys[i] == k {
            return Some(vals[i]);
        }
        i += 1;
    }
    None
}

fn image_of_halfedge(keys: &Vec<HalfedgeId>, vals: &Vec<HalfedgeId>, k: Option<HalfedgeId>) -> (r:
    Option<HalfedgeId>)
    ensures
        r == image_of(keys@, vals@, k),
{
    match k {
        Some(k) => image_halfedge(keys, vals, k),
        None => None,
    }
}

/// The identifiers of a mesh that is being copied, and their new ones.
pub struct Names {
    pub vertices: Vec<VertexId>,
    pub new_vertices: Vec<VertexId>,
    pub halfedges: Vec<HalfedgeId>,
    pub new_halfedges: Vec<HalfedgeId>,
    pub faces: Vec<FaceId>,
    pub new_faces: Vec<FaceId>,
}

impl View for Names {
    type V = Renaming;

    open spec fn view(&self) -> Renaming {
        Renaming {
            vertices: self.vertices@,
            new_vertices: self.new_vertices@,
            halfedges: self.halfedges@,
            new_halfedges: self.new_halfedges@,
            faces: self.faces@,
            new_faces: self.new_faces@,
        }
    }
}

impl Names {
    fn halfedge(&self, rec: Halfedge) -> (r: Halfedge)
        ensures
            r == self@.halfedge(rec),
    {
        Halfedge {
            vertex: match image_vertex(&self.vertices, &self.new_vertices, rec.vertex) {
                Some(v) => v,
                None => rec.vertex,
            },
            face: match rec.face {
                Some(f) => image_face(&self.faces, &self.new_faces, f),
                None => None,
            },
            opposite: image_of_halfedge(&self.halfedges, &self.new_halfedges, rec.opposite),
            prev: image_of_halfedge(&self.halfedges, &self.new_halfedges, rec.prev),
            next: image_of_halfedge(&self.halfedges, &self.new_halfedges, rec.next),
        }
    }
}

impl SMesh {
    fn link_live(&self, h: Option<HalfedgeId>) -> (r: SMeshResult<()>)
        ensures
            r == self.graph().link_live(h),
    {
        match h {
            Some(h) => {
                let _ = self.connectivity.he(h)?;
                Ok(())
            },
            None => Ok(()),
        }
    }

    fn references_live(&self, names: &Names) -> (r: SMeshResult<()>)
        ensures
            r == self.graph().references_live(names@),
    {
        let g = &self.connectivity;
        let mut i: usize = 0;
        while i < names.halfedges.len()
            invariant
                0 <= i <= names.halfedges@.len(),
                g@ == self.graph(),
                g@.ends_live(names.halfedges@, 0) == g@.ends_live(names.halfedges@, i as int),
            decreases names.halfedges@.len() - i,
        {
            let rec = g.he(names.halfedges[i])?;
            let _ = g.vert(rec.vertex)?;
            if let Some(f) = rec.face {
                let _ = g.face(f)?;
            }
            i += 1;
        }
        let mut i: usize = 0;
        while i < names.halfedges.len()
            invariant
                0 <= i <= names.halfedges@.len(),
                g@ == self.graph(),
                g@.ends_live(names.halfedges@, 0) is Ok,
                g@.links_live(names.halfedges@, 0) == g@.links_live(names.halfedges@, i as int),
            decreases names.halfedges@.len() - i,
        {
            let rec = g.he(names.halfedges[i])?;
            self.link_live(rec.opposite)?;
            self.link_live(rec.next)?;
            self.link_live(rec.prev)?;
            i += 1;
        }
        let mut i: usize = 0;
        while i < names.vertices.len()
            invariant
                0 <= i <= names.vertices@.len(),
                g@ == self.graph(),
                g@.ends_live(names.halfedges@, 0) is Ok,
                g@.links_live(names.halfedges@, 0) is Ok,
                g@.spokes_live(names.vertices@, 0) == g@.spokes_live(names.vertices@, i as int),
            decreases names.vertices@.len() - i,
        {
            let rec = g.vert(names.vertices[i])?;
            self.link_live(rec.halfedge)?;
            i += 1;
        }
        let mut i: usize = 0;
        while i < names.faces.len()
            invariant
                0 <= i <= names.faces@.len(),
                g@ == self.graph(),
                g@.ends_live(names.halfedges@, 0) is Ok,
                g@.links_live(names.halfedges@, 0) is Ok,
                g@.spokes_live(names.vertices@, 0) is Ok,
                g@.loops_live(names.faces@, 0) == g@.loops_live(names.faces@, i as int),
            decreases names.faces@.len() - i,
        {
            let rec = g.face(names.faces[i])?;
            self.link_live(rec.halfedge)?;
            i += 1;
        }
        Ok(())
    }

    fn plant_vertices(&mut self, n: usize) -> (news: Vec<VertexId>)
        requires
            old(self).room().vertices >= n,
        ensures
            news@.len() == n,
            final(self).graph() == old(self).graph().planted_vertices(news@),
            final(self).graph().faces == old(self).graph().faces,
            final(self).graph().halfedges == old(self).graph().halfedges,
            forall|i: int| 0 <= i < n ==> !old(self).graph().vertices.contains_key(#[trigger] news@[i]),
            forall|i: int, j: int| 0 <= i < j < n ==> #[trigger] news@[i] != #[trigger] news@[j],
            crate::world::fresh_vertices(old(self).graph(), news@),
            final(self).attributes() == old(self).attributes(),
            final(self).room().within(old(self).room(), n as int, 0, 0),
    {
        let mut news: Vec<VertexId> = Vec::new();
        let mut i: usize = 0;
        while i < n
            invariant
                0 <= i <= n,
                news@.len() == i,
                old(self).room().vertices >= n,
                self.room().within(old(self).room(), i as int, 0, 0),
                self.attributes() == old(self).attributes(),
                self.graph() == old(self).graph().planted_vertices(news@),
                self.graph().faces == old(self).graph().faces,
                self.graph().halfedges == old(self).graph().halfedges,
                forall|k: int|
                    0 <= k < i ==> !old(self).graph().vertices.contains_key(#[trigger] news@[k])
                        && self.graph().vertices.contains_key(news@[k]),
                forall|k: int, l: int| 0 <= k < l < i ==> #[trigger] news@[k] != #[trigger] news@[l],
                forall|k: int| 0 <= k < i ==> old(self).graph().vertex_free(#[trigger] news@[k]),
                forall|k: int, l: int|
                    0 <= k < l < i ==> slot_of((#[trigger] news@[k])@) != slot_of(
                        (#[trigger] news@[l])@,
                    ),
                forall|v: VertexId| #[trigger]
                    old(self).graph().vertices.contains_key(v)
                        ==> self.graph().vertices.contains_key(v),
            decreases n - i,
        {
            let ghost before = news@;
            let ghost g_before = self.graph();
            let v = self.connectivity.insert_vert(Vertex { halfedge: None });
            news.push(v);
            proof {
                assert(news@.drop_last() =~= before);
                assert forall|k: int| 0 <= k < i + 1 implies old(self).graph().vertex_free(
                    #[trigger] news@[k],
                ) by {
                    if k < i {
                        assert(news@[k] == before[k]);
                    } else {
                        assert forall|u: VertexId| #[trigger]
                            old(self).graph().vertices.contains_key(u) implies slot_of(u@)
                            != slot_of(v@) by {
                            assert(g_before.vertices.contains_key(u));
                        }
                    }
                }
                assert forall|k: int, l: int| 0 <= k < l < i + 1 implies slot_of(
                    (#[trigger] news@[k])@,
                ) != slot_of((#[trigger] news@[l])@) by {
                    assert(news@[k] == before[k]);
                    if l < i {
                        assert(news@[l] == before[l]);
                    } else {
                        assert(g_before.vertices.contains_key(before[k]));
                    }
                }
            }
            i += 1;
        }
        news
    }

    fn plant_faces(&mut self, n: usize) -> (news: Vec<FaceId>)
        requires
            old(self).room().faces >= n,
        ensures
            news@.len() == n,
            final(self).graph() == old(self).graph().planted_faces(news@),
            final(self).graph().halfedges == old(self).graph().halfedges,
            forall|i: int| 0 <= i < n ==> !old(self).graph().faces.contains_key(#[trigger] news@[i]),
            forall|i: int, j: int| 0 <= i < j < n ==> #[trigger] news@[i] != #[trigger] news@[j],
            final(self).attributes() == old(self).attributes(),
            final(self).room().within(old(self).room(), 0, 0, n as int),
    {
        let mut news: Vec<FaceId> = Vec::new();
        let mut i: usize = 0;
        while i < n
            invariant
                0 <= i <= n,
                news@.len() == i,
                old(self).room().faces >= n,
                self.room().within(old(self).room(), 0, 0, i as int),
                self.attributes() == old(self).attributes(),
                self.graph() == old(self).graph().planted_faces(news@),
                self.graph().halfedges == old(self).graph().halfedges,
                forall|k: int|
                    0 <= k < i ==> !old(self).graph().faces.contains_key(#[trigger] news@[k])
                        && self.graph().faces.contains_key(news@[k]),
                forall|k: int, l: int| 0 <= k < l < i ==> #[trigger] news@[k] != #[trigger] news@[l],
                forall|f: FaceId| #[trigger]
                    old(self).graph().faces.contains_key(f) ==> self.graph().faces.contains_key(f),
            decreases n - i,
        {
            let ghost before = news@;
            let f = self.connectivity.insert_face(Face { halfedge: None });
            news.push(f);
            proof {
                assert(news@.drop_last() =~= before);
            }
            i += 1;
        }
        news
    }

    fn plant_halfedges(&mut self, other: &SMesh, olds: &Vec<HalfedgeId>) -> (news: Vec<HalfedgeId>)
        requires
            old(self).room().halfedges >= olds@.len(),
            forall|i: int|
                0 <= i < olds@.len() ==> other.graph().halfedges.contains_key(#[trigger] olds@[i]),
        ensures
            news@.len() == olds@.len(),
            final(self).graph() == old(self).graph().planted_halfedges(other.graph(), olds@, news@),
            forall|i: int|
                0 <= i < olds@.len() ==> !old(self).graph().halfedges.contains_key(
                    #[trigger] news@[i],
                ),
            forall|i: int, j: int|
                0 <= i < j < olds@.len() ==> #[trigger] news@[i] != #[trigger] news@[j],
            final(self).attributes() == old(self).attributes(),
            final(self).room().within(old(self).room(), 0, olds@.len() as int, 0),
    {
        let n = olds.len();
        let mut news: Vec<HalfedgeId> = Vec::new();
        let mut i: usize = 0;
        while i < n
            invariant
                0 <= i <= n,
                n == olds@.len(),
                news@.len() == i,
                old(self).room().halfedges >= n,
                self.room().within(old(self).room(), 0, i as int, 0),
                self.attributes() == old(self).attributes(),
                forall|k: int|
                    0 <= k < olds@.len() ==> other.graph().halfedges.contains_key(
                        #[trigger] olds@[k],
                    ),
                self.graph() == old(self).graph().planted_halfedges(other.graph(), olds@, news@),
                forall|k: int|
                    0 <= k < i ==> !old(self).graph().halfedges.contains_key(#[trigger] news@[k])
                        && self.graph().halfedges.contains_key(news@[k]),
                forall|k: int, l: int| 0 <= k < l < i ==> #[trigger] news@[k] != #[trigger] news@[l],
                forall|h: HalfedgeId| #[trigger]
                    old(self).graph().halfedges.contains_key(h)
                        ==> self.graph().halfedges.contains_key(h),
            decreases n - i,
        {
            let ghost before = news@;
            let rec = match other.connectivity.he(olds[i]) {
                Ok(rec) => rec,
                Err(_) => Halfedge::default(),
            };
            let h = self.connectivity.insert_he(rec);
            news.push(h);
            proof {
                assert(news@.drop_last() =~= before);
            }
            i += 1;
        }
        news
    }

    fn rename_all(&mut self, other: &SMesh, names: &Names) -> (r: SMeshResult<()>)
        requires
            forall|i: int|
                0 <= i < names.halfedges@.len() ==> other.graph().halfedges.contains_key(
                    #[trigger] names.halfedges@[i],
                ),
            forall|i: int|
                0 <= i < names.vertices@.len() ==> other.graph().vertices.contains_key(
                    #[trigger] names.vertices@[i],
                ),
            forall|i: int|
                0 <= i < names.faces@.len() ==> other.graph().faces.contains_key(
                    #[trigger] names.faces@[i],
                ),
        ensures
            Edit::after(final(self).graph(), r) == Edit::of(old(self).graph()).renamed_halfedges(
                other.graph(),
                names@,
                0,
            ).renamed_vertices(other.graph(), names@, 0).renamed_faces(other.graph(), names@, 0),
            final(self).attributes() == old(self).attributes(),
            final(self).room() == old(self).room(),
    {
        let ghost o = other.graph();
        let ghost e0 = Edit::of(self.graph());
        let mut i: usize = 0;
        while i < names.halfedges.len() && i < names.new_halfedges.len()
            invariant
                0 <= i <= names.halfedges@.len(),
                o == other.graph(),
                e0 == Edit::of(old(self).graph()),
                self.attributes() == old(self).attributes(),
                self.room() == old(self).room(),
                forall|k: int|
                    0 <= k < names.halfedges@.len() ==> o.halfedges.contains_key(
                        #[trigger] names.halfedges@[k],
                    ),
                e0.renamed_halfedges(o, names@, 0) == Edit::of(self.graph()).renamed_halfedges(
                    o,
                    names@,
                    i as int,
                ),
            decreases names.halfedges@.len() - i,
        {
            let rec = match other.connectivity.he(names.halfedges[i]) {
                Ok(rec) => rec,
                Err(_) => Halfedge::default(),
            };
            self.connectivity.put_he(names.new_halfedges[i], names.halfedge(rec))?;
            i += 1;
        }
        let ghost e1 = Edit::of(self.graph());
        let mut i: usize = 0;
        while i < names.vertices.len() && i < names.new_vertices.len()
            invariant
                0 <= i <= names.vertices@.len(),
                o == other.graph(),
                e0 == Edit::of(old(self).graph()),
                e1 == e0.renamed_halfedges(o, names@, 0),
                self.attributes() == old(self).attributes(),
                self.room() == old(self).room(),
                forall|k: int|
                    0 <= k < names.vertices@.len() ==> o.vertices.contains_key(
                        #[trigger] names.vertices@[k],
                    ),
                e1.renamed_vertices(o, names@, 0) == Edit::of(self.graph()).renamed_vertices(
                    o,
                    names@,
                    i as int,
                ),
            decreases names.vertices@.len() - i,
        {
            let stored = match other.connectivity.vert(names.vertices[i]) {
                Ok(rec) => rec.halfedge,
                Err(_) => None,
            };
            self.connectivity.set_vertex_halfedge(
                names.new_vertices[i],
                image_of_halfedge(&names.halfedges, &names.new_halfedges, stored),
            )?;
            i += 1;
        }
        let ghost e2 = Edit::of(self.graph());
        let mut i: usize = 0;
        while i < names.faces.len() && i < names.new_faces.len()
            invariant
                0 <= i <= names.faces@.len(),
                o == other.graph(),
                e0 == Edit::of(old(self).graph()),
                e1 == e0.renamed_halfedges(o, names@, 0),
                e2 == e1.renamed_vertices(o, names@, 0),
                self.attributes() == old(self).attributes(),
                self.room() == old(self).room(),
                forall|k: int|
                    0 <= k < names.faces@.len() ==> o.faces.contains_key(#[trigger] names.faces@[k]),
                e2.renamed_faces(o, names@, 0) == Edit::of(self.graph()).renamed_faces(
                    o,
                    names@,
                    i as int,
                ),
            decreases names.faces@.len() - i,
        {
            let stored = match other.connectivity.face(names.faces[i]) {
                Ok(rec) => rec.halfedge,
                Err(_) => None,
            };
            self.connectivity.set_face_halfedge(
                names.new_faces[i],
                image_of_halfedge(&names.halfedges, &names.new_halfedges, stored),
            )?;
            i += 1;
        }
        Ok(())
    }

    fn copy_attributes(&mut self, other: &SMesh, names: &Names)
        requires
            forall|i: int|
                0 <= i < names.new_vertices@.len() ==> slot_of((#[trigger] names.new_vertices@[i])@)
                    != 0xFFFF_FFFF,
            names.new_vertices@.len() == names.vertices@.len(),
            names.new_halfedges@.len() == names.halfedges@.len(),
            names.new_faces@.len() == names.faces@.len(),
        ensures
            final(self).graph() == old(self).graph(),
            final(self).room() == old(self).room(),
            final(self).attributes() == old(self).world().combined_attributes(
                other.world(),
                names@,
            ),
    {
        let ghost a0 = self.attributes();
        let ghost oa = other.attributes();
        let ghost vs = raw_vertices(names.vertices@);
        let ghost nvs = raw_vertices(names.new_vertices@);
        let ghost fs = raw_faces(names.faces@);
        let ghost nfs = raw_faces(names.new_faces@);
        let ghost hs = raw_halfedges(names.halfedges@);
        let ghost nhs = raw_halfedges(names.new_halfedges@);
        let mut i: usize = 0;
        while i < names.vertices.len()
            invariant
                0 <= i <= names.vertices@.len(),
                names.new_vertices@.len() == names.vertices@.len(),
                forall|i: int|
                    0 <= i < names.new_vertices@.len() ==> slot_of(
                        (#[trigger] names.new_vertices@[i])@,
                    ) != 0xFFFF_FFFF,
                vs == raw_vertices(names.vertices@),
                nvs == raw_vertices(names.new_vertices@),
                oa == other.attributes(),
                a0 == old(self).attributes(),
                self.graph() == old(self).graph(),
                self.room() == old(self).room(),
                self.attributes().face_normals == a0.face_normals,
                self.attributes().uvs == a0.uvs,
                points_copied(a0.positions, oa.positions, vs, nvs, 0) == points_copied(
                    self.attributes().positions,
                    oa.positions,
                    vs,
                    nvs,
                    i as int,
                ),
                normals_copied(a0.vertex_normals, oa.vertex_normals, vs, nvs, 0) == normals_copied(
                    self.attributes().vertex_normals,
                    oa.vertex_normals,
                    vs,
                    nvs,
                    i as int,
                ),
            decreases names.vertices@.len() - i,
        {
            let v = names.vertices[i];
            let nv = names.new_vertices[i];
            proof {
                assert(vs[i as int] == v@);
                assert(nvs[i as int] == nv@);
            }
            if let Ok(p) = other.position(v) {
                self.place_new(nv, p);
            }
            if let Ok(n) = other.vertex_normal(v) {
                self.copy_vertex_normal(nv, n);
            }
            i += 1;
        }
        let mut i: usize = 0;
        while i < names.faces.len()
            invariant
                0 <= i <= names.faces@.len(),
                names.new_faces@.len() == names.faces@.len(),
                fs == raw_faces(names.faces@),
                nfs == raw_faces(names.new_faces@),
                oa == other.attributes(),
                a0 == old(self).attributes(),
                self.graph() == old(self).graph(),
                self.room() == old(self).room(),
                self.attributes().positions == points_copied(
                    a0.positions,
                    oa.positions,
                    vs,
                    nvs,
                    0,
                ),
                self.attributes().vertex_normals == normals_copied(
                    a0.vertex_normals,
                    oa.vertex_normals,
                    vs,
                    nvs,
                    0,
                ),
                self.attributes().uvs == a0.uvs,
                normals_copied(a0.face_normals, oa.face_normals, fs, nfs, 0) == normals_copied(
                    self.attributes().face_normals,
                    oa.face_normals,
                    fs,
                    nfs,
                    i as int,
                ),
            decreases names.faces@.len() - i,
        {
            let f = names.faces[i];
            let nf = names.new_faces[i];
            proof {
                assert(fs[i as int] == f@);
                assert(nfs[i as int] == nf@);
            }
            if let Ok(n) = other.face_normal(f) {
                self.copy_face_normal(nf, n);
            }
            i += 1;
        }
        let mut i: usize = 0;
        while i < names.halfedges.len()
            invariant
                0 <= i <= names.halfedges@.len(),
                names.new_halfedges@.len() == names.halfedges@.len(),
                hs == raw_halfedges(names.halfedges@),
                nhs == raw_halfedges(names.new_halfedges@),
                oa == other.attributes(),
                a0 == old(self).attributes(),
                self.graph() == old(self).graph(),
                self.room() == old(self).room(),
                self.attributes().positions == points_copied(
                    a0.positions,
                    oa.positions,
                    vs,
                    nvs,
                    0,
                ),
                self.attributes().vertex_normals == normals_copied(
                    a0.vertex_normals,
                    oa.vertex_normals,
                    vs,
                    nvs,
                    0,
                ),
                self.attributes().face_normals == normals_copied(
                    a0.face_normals,
                    oa.face_normals,
                    fs,
                    nfs,
                    0,
                ),
                uvs_copied(a0.uvs, oa.uvs, hs, nhs, 0) == uvs_copied(
                    self.attributes().uvs,
                    oa.uvs,
                    hs,
                    nhs,
                    i as int,
                ),
            decreases names.halfedges@.len() - i,
        {
            let h = names.halfedges[i];
            let nh = names.new_halfedges[i];
            proof {
                assert(hs[i as int] == h@);
                assert(nhs[i as int] == nh@);
            }
            if let Ok(uv) = other.uv(h) {
                self.copy_uv(nh, uv);
            }
            i += 1;
        }
    }

    /// `combine_with` with its exact contract.
    fn combine_with_exact(&mut self, other: SMesh) -> (r: SMeshResult<()>)
        requires
            old(self).room().covers(
                other.graph().n_vertices as int,
                other.graph().n_halfedges as int,
                other.graph().n_faces as int,
            ),
        ensures
            old(self).world().combined_with(other.world(), final(self).world(), r),
            final(self).room().within(
                old(self).room(),
                other.graph().n_vertices as int,
                other.graph().n_halfedges as int,
                other.graph().n_faces as int,
            ),
    {
        let mut names = Names {
            vertices: other.vertices(),
            new_vertices: Vec::new(),
            halfedges: other.halfedges(),
            new_halfedges: Vec::new(),
            faces: other.faces(),
            new_faces: Vec::new(),
        };
        proof {
            assert(names@.lists(other.graph()));
        }
        match other.references_live(&names) {
            Err(e) => {
                proof {
                    assert(old(self).world().combined_as(
                        other.world(),
                        names@,
                        self.world(),
                        Err::<(), SMeshError>(e),
                    ));
                }
                return Err(e);
            },
            Ok(()) => {},
        }
        proof {
            assert forall|i: int| 0 <= i < names.halfedges@.len() implies other.graph().halfedges.contains_key(
                #[trigger] names.halfedges@[i],
            ) by {
                assert(names.halfedges@.contains(names.halfedges@[i]));
            }
            assert forall|i: int| 0 <= i < names.vertices@.len() implies other.graph().vertices.contains_key(
                #[trigger] names.vertices@[i],
            ) by {
                assert(names.vertices@.contains(names.vertices@[i]));
            }
            assert forall|i: int| 0 <= i < names.faces@.len() implies other.graph().faces.contains_key(
                #[trigger] names.faces@[i],
            ) by {
                assert(names.faces@.contains(names.faces@[i]));
            }
        }
        names.new_vertices = self.plant_vertices(names.vertices.len());
        names.new_faces = self.plant_faces(names.faces.len());
        names.new_halfedges = self.plant_halfedges(&other, &names.halfedges);
        self.copy_attributes(&other, &names);
        let r = self.rename_all(&other, &names);
        proof {
            assert(other.graph().references_live(names@) is Ok);
            assert(names@.fresh_in(old(self).graph()));
            assert(old(self).world().combined_as(other.world(), names@, self.world(), r));
        }
        r
    }

    /// Copies another mesh into this one: every record of the other mesh is
    /// added under a fresh identifier, the references among the copies are
    /// renamed so that they stay within the copy, and the attributes of the
    /// live elements come along. Nothing is changed where a reference in the
    /// other mesh does not lead to one of its live records.
    pub fn combine_with(&mut self, other: SMesh) -> (r: SMeshResult<()>)
        requires
            old(self).room().covers(
                other.graph().n_vertices as int,
                other.graph().n_halfedges as int,
                other.graph().n_faces as int,
            ),
        ensures
            old(self).world().combined_with(other.world(), final(self).world(), r),
            final(self).room().within(
                old(self).room(),
                other.graph().n_vertices as int,
                other.graph().n_halfedges as int,
                other.graph().n_faces as int,
            ),
            old(self).graph().paired() && other.graph().paired() ==> final(self).graph().paired(),
    {
        let ghost w = self.world();
        let ghost ow = other.world();
        let r = self.combine_with_exact(other);
        proof {
            if w.g.paired() && ow.g.paired() {
                w.law_combination_keeps_pairs(ow, self.world(), r);
            }
        }
        r
    }
}

} // verus!
